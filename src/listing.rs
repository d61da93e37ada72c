use vstd::prelude::*;
use vstd::multiset::Multiset;
use crate::text::{chars_of, lower_of, lowercase};

verus! {

broadcast use vstd::seq_lib::group_to_multiset_ensures;

/// One entry of a directory.
pub struct DirEntry {
    pub name: String,
    pub path: String,
    pub is_dir: bool,
}

/// A name that starts with a dot is hidden.
pub open spec fn hidden(name: Seq<char>) -> bool {
    name.len() > 0 && name[0] == '.'
}

/// The entries that are not hidden, in their order.
pub open spec fn visible_entries(s: Seq<DirEntry>) -> Seq<DirEntry>
    decreases s.len(),
{
    if s.len() == 0 {
        Seq::empty()
    } else if hidden(s.last().name@) {
        visible_entries(s.drop_last())
    } else {
        visible_entries(s.drop_last()).push(s.last())
    }
}

/// Texts in the order of their characters' code points, a prefix first.
pub open spec fn text_lt(a: Seq<char>, b: Seq<char>) -> bool
    decreases a.len(),
{
    if a.len() == 0 {
        b.len() > 0
    } else if b.len() == 0 {
        false
    } else if (a[0] as u32) != (b[0] as u32) {
        (a[0] as u32) < (b[0] as u32)
    } else {
        text_lt(a.drop_first(), b.drop_first())
    }
}

/// Directories come before files; within each, lower-case names in order.
pub open spec fn key_lt(a_dir: bool, a_key: Seq<char>, b_dir: bool, b_key: Seq<char>) -> bool {
    if a_dir != b_dir {
        a_dir
    } else {
        text_lt(a_key, b_key)
    }
}

/// `a` is listed strictly before `b`.
pub open spec fn entry_lt(a: DirEntry, b: DirEntry) -> bool {
    key_lt(a.is_dir, lower_of(a.name@), b.is_dir, lower_of(b.name@))
}

/// No entry is listed after one that comes strictly after it.
pub open spec fn listing_sorted(s: Seq<DirEntry>) -> bool {
    forall|i: int, j: int| 0 <= i < j < s.len() ==> !entry_lt(#[trigger] s[j], #[trigger] s[i])
}

proof fn lemma_text_lt_asymmetric(a: Seq<char>, b: Seq<char>)
    ensures
        !(text_lt(a, b) && text_lt(b, a)),
    decreases a.len(),
{
    if a.len() > 0 && b.len() > 0 && (a[0] as u32) == (b[0] as u32) {
        lemma_text_lt_asymmetric(a.drop_first(), b.drop_first());
    }
}

proof fn lemma_text_lt_split(a: Seq<char>, b: Seq<char>, c: Seq<char>)
    requires
        text_lt(c, a),
    ensures
        text_lt(c, b) || text_lt(b, a),
    decreases a.len(),
{
    if a.len() > 0 && b.len() > 0 && c.len() > 0 && (c[0] as u32) == (a[0] as u32) && (b[0]
        as u32) == (a[0] as u32) {
        lemma_text_lt_split(a.drop_first(), b.drop_first(), c.drop_first());
    }
}

proof fn lemma_entry_lt_asymmetric(a: DirEntry, b: DirEntry)
    ensures
        !(entry_lt(a, b) && entry_lt(b, a)),
{
    lemma_text_lt_asymmetric(lower_of(a.name@), lower_of(b.name@));
}

proof fn lemma_entry_lt_split(a: DirEntry, b: DirEntry, c: DirEntry)
    requires
        entry_lt(c, a),
    ensures
        entry_lt(c, b) || entry_lt(b, a),
{
    if c.is_dir == a.is_dir && b.is_dir == a.is_dir {
        lemma_text_lt_split(lower_of(a.name@), lower_of(b.name@), lower_of(c.name@));
    }
}

/// Whether one text comes before another in the order of code points.
pub fn text_before(a: &str, b: &str) -> (r: bool)
    ensures
        r == text_lt(a@, b@),
{
    let x = chars_of(a);
    let y = chars_of(b);
    let mut i: usize = 0;
    assert(a@.skip(0) =~= a@);
    assert(b@.skip(0) =~= b@);
    while i < x.len() && i < y.len() && (x[i] as u32) == (y[i] as u32)
        invariant
            x@ == a@,
            y@ == b@,
            0 <= i <= x@.len(),
            i <= y@.len(),
            text_lt(a@, b@) == text_lt(a@.skip(i as int), b@.skip(i as int)),
        decreases x@.len() - i,
    {
        assert(a@.skip(i as int).drop_first() =~= a@.skip(i + 1));
        assert(b@.skip(i as int).drop_first() =~= b@.skip(i + 1));
        i = i + 1;
    }
    if i == x.len() {
        i < y.len()
    } else if i == y.len() {
        false
    } else {
        (x[i] as u32) < (y[i] as u32)
    }
}

/// Whether an entry with `a_dir` and lower-case name `a_key` is listed strictly
/// before one with `b_dir` and `b_key`.
pub fn listing_before(a_dir: bool, a_key: &str, b_dir: bool, b_key: &str) -> (r: bool)
    ensures
        r == key_lt(a_dir, a_key@, b_dir, b_key@),
{
    if a_dir != b_dir {
        a_dir
    } else {
        text_before(a_key, b_key)
    }
}

fn entry_before(a: &DirEntry, b: &DirEntry) -> (r: bool)
    ensures
        r == entry_lt(*a, *b),
{
    let ka = lowercase(a.name.as_str());
    let kb = lowercase(b.name.as_str());
    listing_before(a.is_dir, ka.as_str(), b.is_dir, kb.as_str())
}

/// Whether an entry of this name is hidden from listings.
pub fn starts_with_dot(name: &str) -> (r: bool)
    ensures
        r == hidden(name@),
{
    name.unicode_len() > 0 && name.get_char(0) == '.'
}

/// The entries of a directory as they are shown: hidden ones left out,
/// directories first, then by lower-case name.
pub fn list_visible(entries: Vec<DirEntry>) -> (r: Vec<DirEntry>)
    ensures
        r@.to_multiset() == visible_entries(entries@).to_multiset(),
        listing_sorted(r@),
{
    let ghost all = entries@;
    let mut rest = entries;
    let mut out: Vec<DirEntry> = Vec::new();
    while rest.len() > 0
        invariant
            all.take(rest@.len() as int) == rest@,
            rest@.len() <= all.len(),
            out@.to_multiset().add(visible_entries(rest@).to_multiset()) == visible_entries(
                all,
            ).to_multiset(),
            listing_sorted(out@),
        decreases rest@.len(),
    {
        let ghost before = rest@;
        let e = rest.pop().unwrap();
        assert(before.drop_last() == rest@);
        assert(all.take(rest@.len() as int) =~= rest@);
        if starts_with_dot(e.name.as_str()) {
            assert(visible_entries(before) == visible_entries(rest@));
        } else {
            assert(visible_entries(before) == visible_entries(rest@).push(e));
            let mut p: usize = out.len();
            while p > 0 && entry_before(&e, &out[p - 1])
                invariant
                    0 <= p <= out@.len(),
                    forall|k: int| p <= k < out@.len() ==> entry_lt(e, #[trigger] out@[k]),
                decreases p,
            {
                p = p - 1;
            }
            let ghost old_out = out@;
            proof {
                if p > 0 {
                    assert(!entry_lt(e, old_out[p - 1]));
                }
            }
            out.insert(p, e);
            proof {
                assert(out@ == old_out.insert(p as int, e));
                assert forall|i: int, j: int| 0 <= i < j < out@.len() implies !entry_lt(
                    #[trigger] out@[j],
                    #[trigger] out@[i],
                ) by {
                    if j < p {
                        assert(out@[i] == old_out[i] && out@[j] == old_out[j]);
                    } else if j == p {
                        assert(out@[i] == old_out[i]);
                        if i < p - 1 {
                            assert(!entry_lt(old_out[p - 1], old_out[i]));
                            if entry_lt(e, old_out[i]) {
                                lemma_entry_lt_split(old_out[i], old_out[p - 1], e);
                            }
                        }
                    } else if i == p {
                        assert(out@[j] == old_out[j - 1]);
                        lemma_entry_lt_asymmetric(e, old_out[j - 1]);
                    } else if i < p {
                        assert(out@[i] == old_out[i] && out@[j] == old_out[j - 1]);
                    } else {
                        assert(out@[i] == old_out[i - 1] && out@[j] == old_out[j - 1]);
                    }
                }
                assert(out@.to_multiset() == old_out.to_multiset().insert(e));
                assert(visible_entries(before).to_multiset() == visible_entries(
                    rest@,
                ).to_multiset().insert(e));
                assert(out@.to_multiset().add(visible_entries(rest@).to_multiset())
                    =~= old_out.to_multiset().add(visible_entries(before).to_multiset()));
            }
        }
    }
    proof {
        assert(visible_entries(rest@) =~= Seq::<DirEntry>::empty());
        assert(visible_entries(rest@).to_multiset() =~= Multiset::<DirEntry>::empty());
        assert(out@.to_multiset().add(Multiset::<DirEntry>::empty()) =~= out@.to_multiset());
    }
    out
}

} // verus!
