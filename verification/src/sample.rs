//! Drawing the characters of a key at random.

use crate::chunk::{div_unit, lemma_chunks_of, sum, values};
use crate::count::Count;
use rand::seq::SliceRandom;
use rand::{thread_rng, Rng};
use rayon::iter::{IntoParallelRefIterator, ParallelIterator};
use vstd::prelude::*;

verus! {

/// `Rng::gen_range` on the generator of the thread, from zero: some number
/// below `length`. The call panics where the range is empty, so that case
/// is left out.
#[verifier::external_body]
fn random_below(length: usize) -> (r: usize)
    requires
        length > 0,
    ensures
        r < length,
{
    thread_rng().gen_range(0, length)
}

/// `SliceRandom::shuffle` with the generator of the thread: the same
/// characters, each as often as before, in some order.
#[verifier::external_body]
fn shuffle(buffer: &mut Vec<char>)
    ensures
        final(buffer)@.to_multiset() == old(buffer)@.to_multiset(),
{
    buffer.shuffle(&mut thread_rng())
}

/// A parallel iterator of rayon over `sizes`, each size mapped to what
/// `draw` gives for it and collected in the order of the sizes: one run of
/// characters for each size, as long as the size says, made of characters
/// of `data`.
#[verifier::external_body]
fn par_draw(sizes: &Vec<usize>, data: &Vec<char>) -> (parts: Vec<Vec<char>>)
    requires
        forall|i: int| 0 <= i < sizes@.len() && sizes@[i] > 0 ==> data@.len() > 0,
    ensures
        parts@.len() == sizes@.len(),
        forall|i: int|
            0 <= i < parts@.len() ==> (#[trigger] parts@[i])@.len() == sizes@[i] && within(
                parts@[i]@,
                data@,
            ),
{
    sizes.par_iter().map(|size| draw(*size, data)).collect()
}

/// A parallel iterator of rayon over `buffer`, collected into a `String`:
/// the same characters in the same order.
#[verifier::external_body]
fn par_collect(buffer: &Vec<char>) -> (r: String)
    ensures
        r@ == buffer@,
{
    buffer.par_iter().map(|c| *c).collect()
}

/// Whether every character of `s` is one of `data`.
pub open spec fn within(s: Seq<char>, data: Seq<char>) -> bool {
    forall|i: int| 0 <= i < s.len() ==> data.contains(#[trigger] s[i])
}

/// The sizes as natural numbers.
spec fn sizes_of(s: Seq<usize>) -> Seq<nat> {
    Seq::new(s.len(), |i: int| s[i] as nat)
}

/// `count` indices drawn at random, each below `length`.
pub fn rand_idx(count: usize, length: usize) -> (r: Vec<usize>)
    requires
        count > 0 ==> length > 0,
    ensures
        r@.len() == count,
        forall|i: int| 0 <= i < r@.len() ==> r@[i] < length,
{
    let mut idxs: Vec<usize> = Vec::new();
    let mut n: usize = 0;
    while n < count
        invariant
            n <= count,
            count > 0 ==> length > 0,
            idxs@.len() == n,
            forall|i: int| 0 <= i < idxs@.len() ==> idxs@[i] < length,
        decreases count - n,
    {
        idxs.push(random_below(length));
        n += 1;
    }
    idxs
}

/// `count` characters drawn at random from `data`.
pub fn draw(count: usize, data: &Vec<char>) -> (r: Vec<char>)
    requires
        count > 0 ==> data@.len() > 0,
    ensures
        r@.len() == count,
        within(r@, data@),
{
    let idxs = rand_idx(count, data.len());
    let mut out: Vec<char> = Vec::new();
    let mut i: usize = 0;
    while i < idxs.len()
        invariant
            i <= idxs@.len(),
            out@.len() == i,
            within(out@, data@),
            forall|j: int| 0 <= j < idxs@.len() ==> idxs@[j] < data@.len(),
        decreases idxs.len() - i,
    {
        let c = data[idxs[i]];
        assert(data@.contains(c));
        out.push(c);
        i += 1;
    }
    out
}

/// A sum grows number by number, and holds each of its numbers.
proof fn lemma_sum_take(s: Seq<nat>, i: int)
    requires
        0 <= i < s.len(),
    ensures
        sum(s.take(i + 1)) == sum(s.take(i)) + s[i],
        s[i] <= sum(s),
        sum(s.take(i + 1)) <= sum(s),
    decreases s.len() - i,
{
    assert(s.take(i + 1).drop_last() =~= s.take(i));
    if i + 1 < s.len() {
        lemma_sum_take(s, i + 1);
        assert(s.take(i + 2).drop_last() =~= s.take(i + 1));
    } else {
        assert(s.take(i + 1) =~= s);
    }
}

/// The characters of the runs of `parts`, one run after the other.
fn flatten(parts: &Vec<Vec<char>>, Ghost(sizes): Ghost<Seq<nat>>, Ghost(data): Ghost<Seq<char>>) -> (r:
    Vec<char>)
    requires
        parts@.len() == sizes.len(),
        forall|i: int|
            0 <= i < parts@.len() ==> (#[trigger] parts@[i])@.len() == sizes[i] && within(
                parts@[i]@,
                data,
            ),
    ensures
        r@.len() == sum(sizes),
        within(r@, data),
{
    let mut out: Vec<char> = Vec::new();
    let mut i: usize = 0;
    while i < parts.len()
        invariant
            i <= parts@.len(),
            parts@.len() == sizes.len(),
            forall|k: int|
                0 <= k < parts@.len() ==> (#[trigger] parts@[k])@.len() == sizes[k] && within(
                    parts@[k]@,
                    data,
                ),
            out@.len() == sum(sizes.take(i as int)),
            within(out@, data),
        decreases parts.len() - i,
    {
        let part = &parts[i];
        let ghost before = out@.len();
        let mut j: usize = 0;
        while j < part.len()
            invariant
                j <= part@.len(),
                within(part@, data),
                out@.len() == before + j,
                within(out@, data),
            decreases part.len() - j,
        {
            out.push(part[j]);
            j += 1;
        }
        proof {
            lemma_sum_take(sizes, i as int);
        }
        i += 1;
    }
    assert(sizes.take(i as int) =~= sizes);
    out
}

/// `count` characters drawn at random from `data`, piece by piece: the
/// count is split into pieces of at most `unit`, and the pieces are drawn
/// side by side.
pub fn draw_class(count: &Count, unit: &Count, data: &Vec<char>) -> (r: Vec<char>)
    requires
        unit@ > 0,
        count@ <= usize::MAX,
        count@ > 0 ==> data@.len() > 0,
    ensures
        r@.len() == count@,
        within(r@, data@),
{
    let pieces = div_unit(unit, count);
    proof {
        lemma_chunks_of(count@, unit@);
    }
    let mut sizes: Vec<usize> = Vec::new();
    let mut i: usize = 0;
    while i < pieces.len()
        invariant
            i <= pieces@.len(),
            count@ <= usize::MAX,
            sum(values(pieces@)) == count@,
            sizes@.len() == i,
            forall|k: int| 0 <= k < i ==> sizes@[k] == (#[trigger] pieces@[k])@,
        decreases pieces.len() - i,
    {
        proof {
            lemma_sum_take(values(pieces@), i as int);
        }
        sizes.push(pieces[i].to_usize().unwrap());
        i += 1;
    }
    assert(sizes_of(sizes@) =~= values(pieces@));
    assert forall|k: int| 0 <= k < sizes@.len() && sizes@[k] > 0 implies data@.len() > 0 by {
        lemma_sum_take(values(pieces@), k);
    }
    let parts = par_draw(&sizes, data);
    flatten(&parts, Ghost(sizes_of(sizes@)), Ghost(data@))
}

/// The characters of `buffer` in an order drawn at random, as a text.
pub fn shuffled(buffer: Vec<char>) -> (r: String)
    ensures
        r@.to_multiset() == buffer@.to_multiset(),
{
    let mut buffer = buffer;
    shuffle(&mut buffer);
    par_collect(&buffer)
}

} // verus!
