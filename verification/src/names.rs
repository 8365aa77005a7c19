//! Output naming: each pair's blend is written as
//! `diff_<stem of first>_<stem of second>.png` inside the output folder.

use vstd::prelude::*;

use crate::bytes::push_all;
use crate::scan::spec_stem;
use crate::scan::file_stem;

verus! {

/// The bytes of `diff_`.
pub open spec fn diff_prefix() -> Seq<u8> {
    seq![100u8, 105u8, 102u8, 102u8, 95u8]
}

/// The bytes of `.png`.
pub open spec fn png_suffix() -> Seq<u8> {
    seq![46u8, 112u8, 110u8, 103u8]
}

/// The output file name for a pair of stems:
/// `diff_<stem_a>_<stem_b>.png`.
pub open spec fn spec_diff_name(stem_a: Seq<u8>, stem_b: Seq<u8>) -> Seq<u8> {
    diff_prefix() + stem_a + seq![95u8] + stem_b + png_suffix()
}

/// The output path for a pair of stems: the output folder, a slash, and
/// the output file name.
pub open spec fn spec_diff_path(folder: Seq<u8>, stem_a: Seq<u8>, stem_b: Seq<u8>) -> Seq<u8> {
    folder + seq![47u8] + spec_diff_name(stem_a, stem_b)
}

/// Builds the output file name `diff_<stem_a>_<stem_b>.png`.
pub fn diff_output_name(stem_a: &Vec<u8>, stem_b: &Vec<u8>) -> (r: Vec<u8>)
    ensures
        r@ == spec_diff_name(stem_a@, stem_b@),
{
    let mut out: Vec<u8> = Vec::new();
    out.push(100);
    out.push(105);
    out.push(102);
    out.push(102);
    out.push(95);
    push_all(&mut out, stem_a);
    out.push(95);
    push_all(&mut out, stem_b);
    out.push(46);
    out.push(112);
    out.push(110);
    out.push(103);
    proof {
        assert(out@ =~= spec_diff_name(stem_a@, stem_b@));
    }
    out
}

/// Builds the output path `<folder>/diff_<stem_a>_<stem_b>.png`.
pub fn diff_output_path(folder: &Vec<u8>, stem_a: &Vec<u8>, stem_b: &Vec<u8>) -> (r: Vec<u8>)
    ensures
        r@ == spec_diff_path(folder@, stem_a@, stem_b@),
{
    let mut out: Vec<u8> = Vec::new();
    push_all(&mut out, folder);
    out.push(47);
    let name = diff_output_name(stem_a, stem_b);
    push_all(&mut out, &name);
    proof {
        assert(out@ =~= spec_diff_path(folder@, stem_a@, stem_b@));
    }
    out
}

/// How many output files a listing of `n` qualifying images yields: one
/// per consecutive pair, so `n - 1` for two or more images and none
/// otherwise.
pub open spec fn spec_pair_count(n: int) -> int {
    if n < 2 {
        0
    } else {
        n - 1
    }
}

/// The first `k` planned output paths of a listing, in pair order.
pub open spec fn spec_planned_prefix(folder: Seq<u8>, names: Seq<Seq<u8>>, k: nat) -> Seq<Seq<u8>> {
    Seq::new(
        k,
        |j: int| spec_diff_path(folder, spec_stem(names[j]), spec_stem(names[j + 1])),
    )
}

/// Every output path a listing will produce, in pair order: entry `i` is
/// the path for the pair of the names at `i` and `i + 1`, and there are
/// exactly `spec_pair_count` of them.
pub open spec fn spec_planned_outputs(folder: Seq<u8>, names: Seq<Seq<u8>>) -> Seq<Seq<u8>> {
    spec_planned_prefix(folder, names, spec_pair_count(names.len() as int) as nat)
}

/// The output paths a listing will produce, in pair order.
pub fn plan_outputs(folder: &Vec<u8>, names: &Vec<Vec<u8>>) -> (r: Vec<Vec<u8>>)
    ensures
        r.deep_view() == spec_planned_outputs(folder@, names.deep_view()),
        r@.len() == spec_pair_count(names@.len() as int),
{
    let ghost all: Seq<Seq<u8>> = names.deep_view();
    let mut out: Vec<Vec<u8>> = Vec::new();
    if names.len() < 2 {
        proof {
            assert(out.deep_view() =~= spec_planned_outputs(folder@, all));
        }
        return out;
    }
    let last = names.len() - 1;
    let mut i: usize = 0;
    while i < last
        invariant
            all == names.deep_view(),
            all.len() == names@.len(),
            last == names@.len() - 1,
            names@.len() >= 2,
            i <= last,
            out@.len() == i,
            out.deep_view() == spec_planned_prefix(folder@, all, i as nat),
        decreases last - i,
    {
        let stem_a = file_stem(&names[i]);
        let stem_b = file_stem(&names[i + 1]);
        let path = diff_output_path(folder, &stem_a, &stem_b);
        proof {
            assert(all[i as int] =~= names@[i as int]@);
            assert(all[i + 1] =~= names@[i + 1]@);
            assert(path.deep_view() =~= path@);
        }
        let ghost pv: Seq<u8> = path@;
        let ghost kept: Seq<Seq<u8>> = out.deep_view();
        out.push(path);
        proof {
            assert forall|j: int| 0 <= j < i + 1 implies out.deep_view()[j]
                == spec_planned_prefix(folder@, all, (i + 1) as nat)[j] by {
                if j < i {
                    assert(out.deep_view()[j] == kept[j]);
                    assert(kept[j] == spec_planned_prefix(folder@, all, i as nat)[j]);
                } else {
                    assert(out.deep_view()[j] == pv);
                    assert(spec_planned_prefix(folder@, all, (i + 1) as nat)[j] == spec_diff_path(
                        folder@,
                        spec_stem(all[j]),
                        spec_stem(all[j + 1]),
                    ));
                }
            }
            assert(out.deep_view() =~= spec_planned_prefix(folder@, all, (i + 1) as nat));
        }
        i = i + 1;
    }
    proof {
        assert(spec_planned_prefix(folder@, all, last as nat) =~= spec_planned_outputs(
            folder@,
            all,
        ));
    }
    out
}

} // verus!
