//! Which CPU cores count as "big", and where the chosen set is kept.

use vstd::prelude::*;

verus! {

/// A core whose maximum frequency exceeds this many kHz (2 GHz) is big.
pub const BIG_CORE_MIN_KHZ: u64 = 2_000_000;

/// The cores, by index, whose known maximum frequency exceeds the big-core
/// threshold, in increasing order. `freqs[i]` is core `i`'s maximum
/// frequency in kHz, or `None` where it could not be read.
pub open spec fn big_core_ids(freqs: Seq<Option<u64>>) -> Seq<usize>
    decreases freqs.len(),
{
    if freqs.len() == 0 {
        Seq::empty()
    } else {
        let rest = big_core_ids(freqs.drop_last());
        match freqs.last() {
            Some(f) => if f > BIG_CORE_MIN_KHZ {
                rest.push((freqs.len() - 1) as usize)
            } else {
                rest
            },
            None => rest,
        }
    }
}

/// The cores, by index, whose known maximum frequency is at most the
/// big-core threshold, in increasing order.
pub open spec fn little_core_ids(freqs: Seq<Option<u64>>) -> Seq<usize>
    decreases freqs.len(),
{
    if freqs.len() == 0 {
        Seq::empty()
    } else {
        let rest = little_core_ids(freqs.drop_last());
        match freqs.last() {
            Some(f) => if f <= BIG_CORE_MIN_KHZ {
                rest.push((freqs.len() - 1) as usize)
            } else {
                rest
            },
            None => rest,
        }
    }
}

/// The big cores among those whose frequencies were read.
pub fn select_big_cores(freqs: &Vec<Option<u64>>) -> (r: Vec<usize>)
    ensures
        r@ == big_core_ids(freqs@),
{
    let mut out: Vec<usize> = Vec::new();
    let mut i: usize = 0;
    while i < freqs.len()
        invariant
            i <= freqs@.len(),
            out@ == big_core_ids(freqs@.subrange(0, i as int)),
        decreases freqs@.len() - i,
    {
        proof {
            let next = freqs@.subrange(0, i + 1);
            assert(next.drop_last() =~= freqs@.subrange(0, i as int));
            assert(next.last() == freqs@[i as int]);
        }
        match freqs[i] {
            Some(f) => {
                if f > BIG_CORE_MIN_KHZ {
                    out.push(i);
                }
            },
            None => {},
        }
        i += 1;
    }
    assert(freqs@.subrange(0, freqs@.len() as int) =~= freqs@);
    out
}

/// The little cores among those whose frequencies were read.
pub fn select_little_cores(freqs: &Vec<Option<u64>>) -> (r: Vec<usize>)
    ensures
        r@ == little_core_ids(freqs@),
{
    let mut out: Vec<usize> = Vec::new();
    let mut i: usize = 0;
    while i < freqs.len()
        invariant
            i <= freqs@.len(),
            out@ == little_core_ids(freqs@.subrange(0, i as int)),
        decreases freqs@.len() - i,
    {
        proof {
            let next = freqs@.subrange(0, i + 1);
            assert(next.drop_last() =~= freqs@.subrange(0, i as int));
            assert(next.last() == freqs@[i as int]);
        }
        match freqs[i] {
            Some(f) => {
                if f <= BIG_CORE_MIN_KHZ {
                    out.push(i);
                }
            },
            None => {},
        }
        i += 1;
    }
    assert(freqs@.subrange(0, freqs@.len() as int) =~= freqs@);
    out
}

/// Copies a list of core indices.
fn copy_ids(ids: &Vec<usize>) -> (r: Vec<usize>)
    ensures
        r@ == ids@,
{
    let mut out: Vec<usize> = Vec::new();
    let mut i: usize = 0;
    while i < ids.len()
        invariant
            i <= ids@.len(),
            out@ == ids@.subrange(0, i as int),
        decreases ids@.len() - i,
    {
        out.push(ids[i]);
        i += 1;
        assert(out@ =~= ids@.subrange(0, i as int));
    }
    assert(ids@.subrange(0, ids@.len() as int) =~= ids@);
    out
}

/// The big cores that the host application chose, once it has chosen.
pub struct BigCoreRegistry {
    ids: Option<Vec<usize>>,
}

impl View for BigCoreRegistry {
    type V = Option<Seq<usize>>;

    closed spec fn view(&self) -> Option<Seq<usize>> {
        match self.ids {
            Some(v) => Some(v@),
            None => None,
        }
    }
}

impl BigCoreRegistry {
    /// A registry in which no choice has been made yet.
    pub fn new() -> (r: BigCoreRegistry)
        ensures
            r@ == None::<Seq<usize>>,
    {
        BigCoreRegistry { ids: None }
    }

    /// Records the chosen big cores, replacing any earlier choice.
    pub fn set_big_cores(&mut self, core_ids: Vec<usize>)
        ensures
            final(self)@ == Some(core_ids@),
    {
        self.ids = Some(core_ids);
    }

    /// The recorded big cores; where none were recorded, what `detect`
    /// finds.
    pub fn get_big_cores<F: FnOnce() -> Vec<usize>>(&self, detect: F) -> (r: Vec<usize>)
        requires
            self@ is None ==> detect.requires(()),
        ensures
            match self@ {
                Some(ids) => r@ == ids,
                None => detect.ensures((), r),
            },
    {
        match &self.ids {
            Some(ids) => copy_ids(ids),
            None => detect(),
        }
    }
}

} // verus!
