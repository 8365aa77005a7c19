//! The folder scanner's filtering rule: which directory entries count as
//! images.
//!
//! File names are handled as byte strings, the form in which an operating
//! system hands them out. A name qualifies when its extension — the part
//! after the last dot, provided that dot is not the leading byte — is one
//! of `jpg`, `jpeg`, `png`, `bmp` or `gif`, compared without regard to
//! ASCII case.

use vstd::prelude::*;

verus! {

/// The index of the last dot in a name, or -1 when there is none.
pub open spec fn last_dot_index(name: Seq<u8>) -> int
    decreases name.len(),
{
    if name.len() == 0 {
        -1
    } else if name[name.len() - 1] == 46u8 {
        name.len() - 1
    } else {
        last_dot_index(name.drop_last())
    }
}

/// The extension of a file name: the bytes after the last dot. A name
/// without a dot has none, and neither has a name whose only dot is its
/// first byte (a hidden file such as `.profile`).
pub open spec fn spec_extension(name: Seq<u8>) -> Option<Seq<u8>> {
    let d = last_dot_index(name);
    if d <= 0 {
        None
    } else {
        Some(name.subrange(d + 1, name.len() as int))
    }
}

/// The stem of a file name: the bytes before the last dot, or the whole
/// name when it has no extension.
pub open spec fn spec_stem(name: Seq<u8>) -> Seq<u8> {
    let d = last_dot_index(name);
    if d <= 0 {
        name
    } else {
        name.subrange(0, d)
    }
}

/// An ASCII upper-case letter folded to lower case; any other byte kept.
pub open spec fn ascii_lower(c: u8) -> u8 {
    if 65 <= c <= 90 {
        (c + 32) as u8
    } else {
        c
    }
}

/// A byte string folded to ASCII lower case.
pub open spec fn lower(s: Seq<u8>) -> Seq<u8> {
    s.map_values(|c: u8| ascii_lower(c))
}

/// Whether an extension, folded to ASCII lower case, is one of the five
/// recognised image extensions.
pub open spec fn is_image_extension(ext: Seq<u8>) -> bool {
    let l = lower(ext);
    ||| l == seq![106u8, 112u8, 103u8]  // jpg
    ||| l == seq![106u8, 112u8, 101u8, 103u8]  // jpeg
    ||| l == seq![112u8, 110u8, 103u8]  // png
    ||| l == seq![98u8, 109u8, 112u8]  // bmp
    ||| l == seq![103u8, 105u8, 102u8]  // gif
}

/// Whether a file name carries a recognised image extension.
pub open spec fn spec_is_image_name(name: Seq<u8>) -> bool {
    match spec_extension(name) {
        Some(e) => is_image_extension(e),
        None => false,
    }
}

/// The image names among a listing, in the listing's order.
pub open spec fn spec_filter_images(names: Seq<Seq<u8>>) -> Seq<Seq<u8>> {
    names.filter(|n: Seq<u8>| spec_is_image_name(n))
}

/// While no dot sits at a position at or beyond `k`, the last dot of the
/// whole name is the last dot of its first `k` bytes.
proof fn lemma_last_dot_ignores_clean_suffix(s: Seq<u8>, k: int)
    requires
        0 <= k <= s.len(),
        forall|j: int| k <= j < s.len() ==> s[j] != 46u8,
    ensures
        last_dot_index(s) == last_dot_index(s.take(k)),
    decreases s.len() - k,
{
    if k == s.len() {
        assert(s.take(k) =~= s);
    } else {
        assert(s[s.len() - 1] != 46u8);
        assert(s.drop_last() =~= s.take(s.len() - 1));
        lemma_last_dot_ignores_clean_suffix(s.take(s.len() - 1), k);
        assert(s.take(s.len() - 1).take(k) =~= s.take(k));
    }
}

/// The position of the last dot in a name, or `None` when it has none.
pub fn find_last_dot(name: &Vec<u8>) -> (r: Option<usize>)
    ensures
        match r {
            Some(d) => last_dot_index(name@) == d && d < name@.len(),
            None => last_dot_index(name@) == -1,
        },
{
    let mut i: usize = name.len();
    while i > 0
        invariant
            i <= name@.len(),
            forall|j: int| i <= j < name@.len() ==> name@[j] != 46u8,
        decreases i,
    {
        if name[i - 1] == 46u8 {
            proof {
                lemma_last_dot_ignores_clean_suffix(name@, i as int);
                assert(name@.take(i as int)[i - 1] == 46u8);
            }
            return Some(i - 1);
        }
        i = i - 1;
    }
    proof {
        lemma_last_dot_ignores_clean_suffix(name@, 0);
        assert(name@.take(0) =~= Seq::<u8>::empty());
    }
    None
}

/// The stem of a file name: the bytes before its last dot, or the whole
/// name when it has no extension.
pub fn file_stem(name: &Vec<u8>) -> (r: Vec<u8>)
    ensures
        r@ == spec_stem(name@),
{
    let end: usize = match find_last_dot(name) {
        Some(d) => if d == 0 {
            name.len()
        } else {
            d
        },
        None => name.len(),
    };
    proof {
        assert(name@.subrange(0, name@.len() as int) =~= name@);
    }
    crate::bytes::copy_range(name, 0, end)
}

/// The extension of a file name, when it has one.
pub fn extension_of(name: &Vec<u8>) -> (r: Option<Vec<u8>>)
    ensures
        match r {
            Some(e) => spec_extension(name@) matches Some(s) && s == e@,
            None => spec_extension(name@) is None,
        },
{
    let len = name.len();
    match find_last_dot(name) {
        Some(d) => if d == 0 {
            None
        } else {
            Some(crate::bytes::copy_range(name, d + 1, len))
        },
        None => None,
    }
}

/// A copy of a byte string folded to ASCII lower case.
pub fn to_ascii_lower(v: &Vec<u8>) -> (r: Vec<u8>)
    ensures
        r@ == lower(v@),
{
    let mut out: Vec<u8> = Vec::new();
    let mut i: usize = 0;
    while i < v.len()
        invariant
            i <= v@.len(),
            out@.len() == i,
            forall|j: int| 0 <= j < i ==> out@[j] == ascii_lower(v@[j]),
        decreases v@.len() - i,
    {
        let c = v[i];
        if 65 <= c && c <= 90 {
            out.push(c + 32);
        } else {
            out.push(c);
        }
        i = i + 1;
    }
    proof {
        assert(out@ =~= lower(v@));
    }
    out
}

/// Whether a file name carries a recognised image extension.
pub fn is_image_name(name: &Vec<u8>) -> (r: bool)
    ensures
        r == spec_is_image_name(name@),
{
    let ext = match extension_of(name) {
        Some(e) => e,
        None => {
            return false;
        },
    };
    let low = to_ascii_lower(&ext);
    let n = low.len();
    let hit: bool = if n == 3 {
        (low[0] == 106 && low[1] == 112 && low[2] == 103) || (low[0] == 112 && low[1] == 110
            && low[2] == 103) || (low[0] == 98 && low[1] == 109 && low[2] == 112) || (low[0] == 103
            && low[1] == 105 && low[2] == 102)
    } else if n == 4 {
        low[0] == 106 && low[1] == 112 && low[2] == 101 && low[3] == 103
    } else {
        false
    };
    proof {
        if hit {
            if n == 3 {
                if low@[0] == 106 && low@[1] == 112 && low@[2] == 103 {
                    assert(low@ =~= seq![106u8, 112u8, 103u8]);
                } else if low@[0] == 112 && low@[1] == 110 && low@[2] == 103 {
                    assert(low@ =~= seq![112u8, 110u8, 103u8]);
                } else if low@[0] == 98 && low@[1] == 109 && low@[2] == 112 {
                    assert(low@ =~= seq![98u8, 109u8, 112u8]);
                } else {
                    assert(low@ =~= seq![103u8, 105u8, 102u8]);
                }
            } else {
                assert(low@ =~= seq![106u8, 112u8, 101u8, 103u8]);
            }
        }
    }
    hit
}

/// One step of filtering: the filtered prefix of length `i + 1` is the
/// filtered prefix of length `i`, with the element at `i` appended when
/// it qualifies.
proof fn lemma_filter_images_step(s: Seq<Seq<u8>>, i: int)
    requires
        0 <= i < s.len(),
    ensures
        spec_filter_images(s.take(i + 1)) == (if spec_is_image_name(s[i]) {
            spec_filter_images(s.take(i)).push(s[i])
        } else {
            spec_filter_images(s.take(i))
        }),
{
    reveal(Seq::filter);
    let t = s.take(i + 1);
    assert(t.drop_last() =~= s.take(i));
    assert(t.last() == s[i]);
}

/// Keeps the image names of a listing, in the listing's order.
pub fn filter_image_names(names: &Vec<Vec<u8>>) -> (r: Vec<Vec<u8>>)
    ensures
        r.deep_view() == spec_filter_images(names.deep_view()),
{
    let ghost all: Seq<Seq<u8>> = names.deep_view();
    let mut out: Vec<Vec<u8>> = Vec::new();
    proof {
        reveal(Seq::filter);
        assert(all.take(0) =~= Seq::<Seq<u8>>::empty());
        assert(out.deep_view() =~= spec_filter_images(all.take(0)));
    }
    let mut i: usize = 0;
    while i < names.len()
        invariant
            i <= names@.len(),
            all == names.deep_view(),
            all.len() == names@.len(),
            out.deep_view() == spec_filter_images(all.take(i as int)),
        decreases names@.len() - i,
    {
        let keep = is_image_name(&names[i]);
        proof {
            lemma_filter_images_step(all, i as int);
            assert(all[i as int] =~= names@[i as int]@);
        }
        if keep {
            let item = names[i].clone();
            proof {
                assert(item@ =~= names@[i as int]@);
                assert(item.deep_view() =~= all[i as int]);
            }
            out.push(item);
            proof {
                assert(out.deep_view() =~= spec_filter_images(all.take(i + 1)));
            }
        } else {
            proof {
                assert(out.deep_view() =~= spec_filter_images(all.take(i + 1)));
            }
        }
        i = i + 1;
    }
    proof {
        assert(all.take(names@.len() as int) =~= all);
    }
    out
}

/// Filtering a listing that has already been filtered changes nothing:
/// scanning an unchanged folder a second time yields the same sequence.
pub proof fn lemma_filter_images_idempotent(names: Seq<Seq<u8>>)
    ensures
        spec_filter_images(spec_filter_images(names)) == spec_filter_images(names),
{
    broadcast use vstd::seq_lib::group_filter_ensures;

    let pred = |n: Seq<u8>| spec_is_image_name(n);
    let kept = names.filter(pred);
    assert(forall|i: int| 0 <= i < kept.len() ==> pred(#[trigger] kept[i]));
    lemma_filter_of_all_matching(kept, pred);
}

/// Filtering keeps a sequence whole when every element already satisfies
/// the predicate.
proof fn lemma_filter_of_all_matching(s: Seq<Seq<u8>>, pred: spec_fn(Seq<u8>) -> bool)
    requires
        forall|i: int| 0 <= i < s.len() ==> pred(#[trigger] s[i]),
    ensures
        s.filter(pred) == s,
    decreases s.len(),
{
    reveal(Seq::filter);
    if s.len() == 0 {
        assert(s.filter(pred) =~= s);
    } else {
        lemma_filter_of_all_matching(s.drop_last(), pred);
        assert(pred(s.last()));
        assert(s.drop_last().push(s.last()) =~= s);
        assert(s.filter(pred) =~= s);
    }
}

} // verus!
