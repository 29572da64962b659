//! The inclusion policy: which top-level sections of a book are kept.
use vstd::prelude::*;

verus! {

/// The path with trailing separators and trailing `.` components removed,
/// as `std::path::Path` does when it looks for the last component.
pub open spec fn trim_tail(p: Seq<char>) -> Seq<char>
    decreases p.len(),
{
    if p.len() == 0 {
        p
    } else if p.last() == '/' {
        trim_tail(p.drop_last())
    } else if p.last() == '.' && (p.len() == 1 || p[p.len() - 2] == '/') {
        trim_tail(p.drop_last())
    } else {
        p
    }
}

/// Index where the last `/`-separated segment of `t` starts.
pub open spec fn last_segment_start(t: Seq<char>) -> int
    decreases t.len(),
{
    if t.len() == 0 {
        0
    } else if t.last() == '/' {
        t.len() as int
    } else {
        last_segment_start(t.drop_last())
    }
}

/// The final file name component of `p` exists and begins with `_`.
/// Only `/` separates components here, as on Unix; Windows paths, where
/// `std::path::Path` also splits on `\`, are not handled.
pub open spec fn is_private_path(p: Seq<char>) -> bool {
    let t = trim_tail(p);
    let k = last_segment_start(t);
    k < t.len() && t[k] == '_'
}

/// Whether the final file name component of `path` begins with `_`.
pub fn is_private_file(path: &str) -> (r: bool)
    ensures
        r == is_private_path(path@),
{
    let n = path.unicode_len();
    let mut end: usize = n;
    let mut trimmed = false;
    assert(path@.subrange(0, n as int) =~= path@);
    while end > 0 && !trimmed
        invariant
            end <= n,
            n == path@.len(),
            trim_tail(path@) == trim_tail(path@.subrange(0, end as int)),
            trimmed ==> trim_tail(path@.subrange(0, end as int)) == path@.subrange(0, end as int),
        decreases end + if trimmed { 0int } else { 1int },
    {
        let c = path.get_char(end - 1);
        let ghost prev = path@.subrange(0, end as int);
        assert(prev.drop_last() =~= path@.subrange(0, end - 1));
        if c == '/' {
            end = end - 1;
        } else if c == '.' && (end == 1 || path.get_char(end - 2) == '/') {
            end = end - 1;
        } else {
            trimmed = true;
        }
    }
    let ghost t = path@.subrange(0, end as int);
    assert(trim_tail(t) == t);
    let mut k: usize = end;
    let mut found = false;
    assert(t.subrange(0, end as int) =~= t);
    while k > 0 && !found
        invariant
            k <= end,
            end <= n,
            n == path@.len(),
            t == path@.subrange(0, end as int),
            last_segment_start(t) == last_segment_start(t.subrange(0, k as int)),
            found ==> last_segment_start(t.subrange(0, k as int)) == k,
        decreases k + if found { 0int } else { 1int },
    {
        let ghost prefix = t.subrange(0, k as int);
        assert(prefix.drop_last() =~= t.subrange(0, k - 1));
        if path.get_char(k - 1) == '/' {
            found = true;
        } else {
            k = k - 1;
        }
    }
    assert(last_segment_start(t) == k);
    k < end && path.get_char(k) == '_'
}


/// Whether a chapter with this source path stays in the book when private
/// chapters are not exported: it stays unless its file name begins with `_`.
pub fn should_keep_chapter(source_path: Option<&str>) -> (r: bool)
    ensures
        r == !(source_path is Some && is_private_path(source_path.unwrap()@)),
{
    match source_path {
        Some(p) => !is_private_file(p),
        None => true,
    }
}

/// Character-wise equality of two strings.
pub fn str_equal(a: &str, b: &str) -> (r: bool)
    ensures
        r == (a@ == b@),
{
    let n = a.unicode_len();
    if n != b.unicode_len() {
        return false;
    }
    let mut i: usize = 0;
    while i < n
        invariant
            i <= n,
            n == a@.len(),
            n == b@.len(),
            a@.subrange(0, i as int) == b@.subrange(0, i as int),
        decreases n - i,
    {
        if a.get_char(i) != b.get_char(i) {
            return false;
        }
        assert(a@.subrange(0, i + 1) =~= a@.subrange(0, i as int).push(a@[i as int]));
        assert(b@.subrange(0, i + 1) =~= b@.subrange(0, i as int).push(b@[i as int]));
        i = i + 1;
    }
    assert(a@ =~= a@.subrange(0, n as int));
    assert(b@ =~= b@.subrange(0, n as int));
    true
}

/// The spellings of the environment override that turn it on.
pub open spec fn is_truthy(v: Seq<char>) -> bool {
    v == "1"@ || v == "true"@ || v == "TRUE"@ || v == "yes"@ || v == "YES"@
}

/// Whether the value of the environment override turns it on.
pub fn is_truthy_value(v: &str) -> (r: bool)
    ensures
        r == is_truthy(v@),
{
    str_equal(v, "1") || str_equal(v, "true") || str_equal(v, "TRUE") || str_equal(v, "yes")
        || str_equal(v, "YES")
}

/// Private chapters are exported when the configuration sets `export-private`
/// to boolean `true`, or when the environment override holds a truthy value.
pub open spec fn export_private_spec(setting: Option<bool>, env_value: Option<Seq<char>>) -> bool {
    setting == Some(true) || (env_value is Some && is_truthy(env_value.unwrap()))
}

/// Decides whether private chapters are exported, from the configuration's
/// `export-private` setting (`None` where absent or not a boolean) and the
/// value of the `MDBOOK_EXPORT_PRIVATE` environment variable, if set.
pub fn should_export_private(setting: Option<bool>, env_value: Option<&str>) -> (r: bool)
    ensures
        r == export_private_spec(setting, match env_value {
            Some(v) => Some(v@),
            None => None,
        }),
{
    let from_config = match setting {
        Some(b) => b,
        None => false,
    };
    from_config || match env_value {
        Some(v) => is_truthy_value(v),
        None => false,
    }
}

/// The renderers this preprocessor supports.
pub open spec fn supported_renderer_names() -> Seq<Seq<char>> {
    seq!["html"@, "pdf"@, "epub"@]
}

/// The names of the renderers this preprocessor supports.
pub fn supported_renderers() -> (r: Vec<&'static str>)
    ensures
        r@.len() == supported_renderer_names().len(),
        forall|i: int| 0 <= i < r@.len() ==> #[trigger] r@[i]@ == supported_renderer_names()[i],
{
    let r = vec!["html", "pdf", "epub"];
    r
}

/// Whether `renderer` names a supported renderer.
pub fn supports_renderer(renderer: &str) -> (r: bool)
    ensures
        r == supported_renderer_names().contains(renderer@),
{
    let names = supported_renderers();
    let mut i: usize = 0;
    while i < names.len()
        invariant
            i <= names@.len(),
            names@.len() == supported_renderer_names().len(),
            forall|j: int| 0 <= j < names@.len() ==> #[trigger] names@[j]@ == supported_renderer_names()[j],
            forall|j: int| 0 <= j < i ==> supported_renderer_names()[j] != renderer@,
        decreases names@.len() - i,
    {
        if str_equal(names[i], renderer) {
            assert(supported_renderer_names()[i as int] == renderer@);
            return true;
        }
        i = i + 1;
    }
    false
}

/// What the policy needs to know of one top-level item of a book.
pub enum SectionKind {
    /// A chapter, with the path of its source file where it has one.
    Chapter { source_path: Option<String> },
    /// A separator, a part title or any other item that is not a chapter.
    Other,
}

/// Whether an item of this kind is kept.
pub open spec fn is_retained(kind: SectionKind, export_private: bool) -> bool {
    match kind {
        SectionKind::Chapter { source_path: Some(p) } => export_private || !is_private_path(p@),
        _ => true,
    }
}

/// Indices of the items that are kept, in increasing order.
pub open spec fn kept_indices(kinds: Seq<SectionKind>, export_private: bool) -> Seq<int>
    decreases kinds.len(),
{
    if kinds.len() == 0 {
        Seq::empty()
    } else {
        let prev = kept_indices(kinds.drop_last(), export_private);
        if is_retained(kinds.last(), export_private) {
            prev.push(kinds.len() - 1)
        } else {
            prev
        }
    }
}

/// The items that are kept, in their original order.
pub open spec fn filtered<T>(items: Seq<T>, kinds: Seq<SectionKind>, export_private: bool) -> Seq<T> {
    kept_indices(kinds, export_private).map_values(|j: int| items[j])
}

/// The kept indices are in range, strictly increasing, and hold exactly the
/// indices of retained items.
pub proof fn lemma_kept_indices(kinds: Seq<SectionKind>, export_private: bool)
    ensures
        forall|a: int|
            0 <= a < kept_indices(kinds, export_private).len() ==> 0
                <= #[trigger] kept_indices(kinds, export_private)[a] < kinds.len(),
        forall|a: int, b: int|
            0 <= a < b < kept_indices(kinds, export_private).len() ==> kept_indices(
                kinds,
                export_private,
            )[a] < kept_indices(kinds, export_private)[b],
        forall|j: int|
            0 <= j < kinds.len() ==> (kept_indices(kinds, export_private).contains(j)
                <==> is_retained(#[trigger] kinds[j], export_private)),
    decreases kinds.len(),
{
    if kinds.len() > 0 {
        let prev_kinds = kinds.drop_last();
        lemma_kept_indices(prev_kinds, export_private);
        let prev = kept_indices(prev_kinds, export_private);
        let cur = kept_indices(kinds, export_private);
        assert forall|j: int| 0 <= j < kinds.len() implies (cur.contains(j) <==> is_retained(
            #[trigger] kinds[j],
            export_private,
        )) by {
            if j < kinds.len() - 1 {
                assert(prev_kinds[j] == kinds[j]);
                if cur.contains(j) {
                    let a = choose|a: int| 0 <= a < cur.len() && cur[a] == j;
                    if a < prev.len() {
                        assert(prev[a] == j);
                    }
                }
                if prev.contains(j) {
                    let a = choose|a: int| 0 <= a < prev.len() && prev[a] == j;
                    assert(cur[a] == j);
                }
            } else {
                if is_retained(kinds.last(), export_private) {
                    assert(cur[cur.len() - 1] == j);
                } else {
                    if cur.contains(j) {
                        let a = choose|a: int| 0 <= a < cur.len() && cur[a] == j;
                        assert(prev[a] == j);
                    }
                }
            }
        }
    }
}

/// Keeps the items whose kind the policy retains, in their original order.
/// `kinds[i]` describes `items[i]`. Only the top-level items are looked at:
/// a kept chapter carries its nested items along unchanged, private ones
/// included.
pub fn filter_sections<T>(items: Vec<T>, kinds: &Vec<SectionKind>, export_private: bool) -> (r:
    Vec<T>)
    requires
        items@.len() == kinds@.len(),
    ensures
        r@ == filtered(items@, kinds@, export_private),
{
    let ghost all = items@;
    let n = items.len();
    let mut rest = items;
    let mut kept: Vec<T> = Vec::new();
    let mut i: usize = 0;
    while i < n
        invariant
            i <= n,
            n == all.len(),
            n == kinds@.len(),
            rest@ == all.subrange(i as int, n as int),
            kept@ == kept_indices(kinds@.subrange(0, i as int), export_private).map_values(
                |j: int| all[j],
            ),
        decreases n - i,
    {
        let ghost before = kept_indices(kinds@.subrange(0, i as int), export_private);
        assert(kinds@.subrange(0, i + 1).drop_last() =~= kinds@.subrange(0, i as int));
        let item = rest.remove(0);
        assert(item == all[i as int]);
        let keep = match &kinds[i] {
            SectionKind::Chapter { source_path: Some(p) } => export_private || should_keep_chapter(
                Some(p.as_str()),
            ),
            _ => true,
        };
        if keep {
            kept.push(item);
            assert(before.push(i as int).map_values(|j: int| all[j]) =~= before.map_values(
                |j: int| all[j],
            ).push(all[i as int]));
        }
        assert(rest@ =~= all.subrange(i + 1, n as int));
        i = i + 1;
    }
    assert(kinds@.subrange(0, n as int) =~= kinds@);
    kept
}


/// A chapter whose file name begins with `_` is left out when private
/// chapters are not exported.
pub proof fn private_chapter_is_dropped<T>(items: Seq<T>, kinds: Seq<SectionKind>, i: int)
    requires
        items.len() == kinds.len(),
        0 <= i < kinds.len(),
        kinds[i] matches SectionKind::Chapter { source_path: Some(p) } && is_private_path(p@),
    ensures
        !kept_indices(kinds, false).contains(i),
        forall|a: int|
            0 <= a < filtered(items, kinds, false).len() ==> kept_indices(kinds, false)[a] != i,
{
    lemma_kept_indices(kinds, false);
}

/// An item of the input that the policy retains appears, unchanged, in the
/// output, at the position given by the kept indices.
proof fn lemma_retained_present<T>(
    items: Seq<T>,
    kinds: Seq<SectionKind>,
    export_private: bool,
    i: int,
)
    requires
        items.len() == kinds.len(),
        0 <= i < kinds.len(),
        is_retained(kinds[i], export_private),
    ensures
        exists|a: int|
            0 <= a < filtered(items, kinds, export_private).len() && kept_indices(
                kinds,
                export_private,
            )[a] == i && #[trigger] filtered(items, kinds, export_private)[a] == items[i],
{
    lemma_kept_indices(kinds, export_private);
    let k = kept_indices(kinds, export_private);
    assert(k.contains(i));
    let a = choose|a: int| 0 <= a < k.len() && k[a] == i;
    assert(filtered(items, kinds, export_private)[a] == items[i]);
}

/// A chapter whose file name does not begin with `_` is kept unchanged,
/// whether or not private chapters are exported.
pub proof fn public_chapter_is_kept<T>(
    items: Seq<T>,
    kinds: Seq<SectionKind>,
    export_private: bool,
    i: int,
)
    requires
        items.len() == kinds.len(),
        0 <= i < kinds.len(),
        kinds[i] matches SectionKind::Chapter { source_path: Some(p) } && !is_private_path(p@),
    ensures
        exists|a: int|
            0 <= a < filtered(items, kinds, export_private).len() && kept_indices(
                kinds,
                export_private,
            )[a] == i && #[trigger] filtered(items, kinds, export_private)[a] == items[i],
{
    lemma_retained_present(items, kinds, export_private, i);
}

/// A chapter without a source path is always kept unchanged.
pub proof fn pathless_chapter_is_kept<T>(
    items: Seq<T>,
    kinds: Seq<SectionKind>,
    export_private: bool,
    i: int,
)
    requires
        items.len() == kinds.len(),
        0 <= i < kinds.len(),
        kinds[i] matches SectionKind::Chapter { source_path: None },
    ensures
        exists|a: int|
            0 <= a < filtered(items, kinds, export_private).len() && kept_indices(
                kinds,
                export_private,
            )[a] == i && #[trigger] filtered(items, kinds, export_private)[a] == items[i],
{
    lemma_retained_present(items, kinds, export_private, i);
}

/// Every item that is not a chapter is kept unchanged, and the kept items
/// stay in their relative order.
pub proof fn other_items_are_kept_in_order<T>(
    items: Seq<T>,
    kinds: Seq<SectionKind>,
    export_private: bool,
    i: int,
)
    requires
        items.len() == kinds.len(),
        0 <= i < kinds.len(),
        kinds[i] is Other,
    ensures
        exists|a: int|
            0 <= a < filtered(items, kinds, export_private).len() && kept_indices(
                kinds,
                export_private,
            )[a] == i && #[trigger] filtered(items, kinds, export_private)[a] == items[i],
        forall|a: int, b: int|
            0 <= a < b < kept_indices(kinds, export_private).len() ==> kept_indices(
                kinds,
                export_private,
            )[a] < kept_indices(kinds, export_private)[b],
{
    lemma_kept_indices(kinds, export_private);
    lemma_retained_present(items, kinds, export_private, i);
}

/// With private chapters exported, every item passes through: the output is
/// the input, in the same order.
pub proof fn export_keeps_every_item<T>(items: Seq<T>, kinds: Seq<SectionKind>)
    requires
        items.len() == kinds.len(),
    ensures
        filtered(items, kinds, true) == items,
{
    lemma_export_keeps_indices(kinds);
    assert(filtered(items, kinds, true) =~= items);
}

/// With private chapters exported, every index is kept.
proof fn lemma_export_keeps_indices(kinds: Seq<SectionKind>)
    ensures
        kept_indices(kinds, true) =~= Seq::new(kinds.len(), |j: int| j),
    decreases kinds.len(),
{
    if kinds.len() > 0 {
        lemma_export_keeps_indices(kinds.drop_last());
    }
}

} // verus!
