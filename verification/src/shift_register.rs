use vstd::prelude::*;

verus! {

/// The sum of the samples that are present in `s`.
pub open spec fn sample_sum(s: Seq<Option<u64>>) -> int
    decreases s.len(),
{
    if s.len() == 0 {
        0
    } else {
        sample_sum(s.drop_last()) + match s.last() {
            Some(v) => v as int,
            None => 0,
        }
    }
}

/// The number of samples that are present in `s`.
pub open spec fn sample_count(s: Seq<Option<u64>>) -> int
    decreases s.len(),
{
    if s.len() == 0 {
        0
    } else {
        sample_count(s.drop_last()) + if s.last() is Some {
            1int
        } else {
            0int
        }
    }
}

/// The mean of the samples that are present in `s`, rounded down; 0 where
/// none is present.
pub open spec fn sample_mean(s: Seq<Option<u64>>) -> int {
    if sample_count(s) == 0 {
        0
    } else {
        sample_sum(s) / sample_count(s)
    }
}

/// The last three samples of a signal, newest first, with their mean.
#[derive(Clone, Copy, Debug, PartialEq, Eq)]
pub struct ShiftRegister {
    data: [Option<u64>; 3],
}

impl ShiftRegister {
    /// The samples held, newest first; `None` where fewer than three were
    /// inserted yet.
    pub closed spec fn view(&self) -> Seq<Option<u64>> {
        self.data@
    }

    /// Puts `val` in front, moves the samples held one place on and drops
    /// the oldest.
    pub fn insert(&mut self, val: u64)
        ensures
            final(self)@ == seq![Some(val), old(self)@[0], old(self)@[1]],
    {
        let newest = self.data[0];
        let middle = self.data[1];
        self.data[2] = middle;
        self.data[1] = newest;
        self.data[0] = Some(val);
        assert(self.data@ =~= seq![Some(val), old(self)@[0], old(self)@[1]]);
    }

    /// The mean of the samples held, rounded down; 0 while the register is
    /// empty. The sum is formed in 128 bits, so no three samples overflow it.
    pub fn avg(&self) -> (r: u64)
        ensures
            r == sample_mean(self@),
    {
        let mut sum: u128 = 0;
        let mut count: u128 = 0;
        let mut i: usize = 0;
        while i < 3
            invariant
                i <= 3,
                self.data@.len() == 3,
                sum == sample_sum(self.data@.take(i as int)),
                count == sample_count(self.data@.take(i as int)),
                0 <= count <= i,
                sum <= count * (u64::MAX as int),
            decreases 3 - i,
        {
            proof {
                let next = self.data@.take(i + 1);
                assert(next.drop_last() =~= self.data@.take(i as int));
                assert(next.last() == self.data@[i as int]);
            }
            if let Some(num) = self.data[i] {
                sum = sum + num as u128;
                count = count + 1;
            }
            i = i + 1;
        }
        proof {
            assert(self.data@.take(3) =~= self.data@);
        }
        if count == 0 {
            0
        } else {
            let mean: u128 = sum / count;
            assert(mean <= u64::MAX) by (nonlinear_arith)
                requires
                    mean == sum / count,
                    count > 0,
                    sum <= count * (u64::MAX as int),
            ;
            mean as u64
        }
    }

    /// The samples held, newest first.
    pub fn as_array(&self) -> (r: &[Option<u64>])
        ensures
            r@ == self@,
    {
        self.data.as_slice()
    }
}

impl Default for ShiftRegister {
    /// The empty register.
    fn default() -> (r: Self)
        ensures
            r@ == seq![None::<u64>, None::<u64>, None::<u64>],
    {
        let r = ShiftRegister { data: [None, None, None] };
        assert(r.data@ =~= seq![None::<u64>, None::<u64>, None::<u64>]);
        r
    }
}

} // verus!
