//! The configuration variables held in memory.
use vstd::prelude::*;
use crate::cv::store::{self, Attempt, Error, Store, StoreModel, Write};
use crate::cv::CV_SIZE;

verus! {

/// What a read of an address gives when the variables have the given values, the first one
/// at index 0. There is no variable 0.
pub open spec fn image_byte(values: Seq<u8>, address: int) -> Result<u8, Error> {
    if 1 <= address <= values.len() {
        Ok(values[address - 1])
    } else {
        Err(Error::InvalidAddress)
    }
}

/// What a write of `len` values from `address` on answers.
pub open spec fn image_write_result(address: int, len: nat) -> Result<(), Error> {
    if 1 <= address && address - 1 + len <= CV_SIZE {
        Ok(())
    } else {
        Err(Error::InvalidAddress)
    }
}

/// Whether the variables of a store from `address` on exist and hold the given values.
pub open spec fn held(store: StoreModel, address: int, values: Seq<u8>) -> bool {
    &&& image_write_result(address, values.len()) is Ok
    &&& forall|i: int|
        0 <= i < values.len() ==> store.byte(address + i) == Ok::<u8, Error>(#[trigger] values[i])
}

/// All configuration variables, held in memory.
pub struct CvImage {
    cvs: Vec<u8>,
    attempts: Ghost<Seq<Attempt>>,
}

impl CvImage {
    #[verifier::type_invariant]
    spec fn complete(self) -> bool {
        self.cvs@.len() == CV_SIZE
    }

    /// An image of the given values, the first variable at index 0; `None` unless there is a
    /// value for every variable.
    pub fn new(values: Vec<u8>) -> (r: Option<CvImage>)
        ensures
            match r {
                Some(image) => {
                    &&& values@.len() == CV_SIZE
                    &&& image.view().attempts.len() == 0
                    &&& forall|a: int| #[trigger]
                        image.view().byte(a) == image_byte(values@, a)
                },
                None => values@.len() != CV_SIZE,
            },
    {
        if values.len() == CV_SIZE {
            Some(CvImage { cvs: values, attempts: Ghost(Seq::empty()) })
        } else {
            None
        }
    }

    /// The values of all variables, the first one at index 0.
    pub fn as_slice(&self) -> (r: &[u8])
        ensures
            r@.len() == CV_SIZE,
            forall|a: int| #[trigger] self.view().byte(a) == image_byte(r@, a),
    {
        proof {
            use_type_invariant(self);
        }
        self.cvs.as_slice()
    }

    /// Whether the variables from `address` on hold the given values already, so that writing
    /// them would change nothing.
    pub fn holds(&self, address: usize, value: &[u8]) -> (r: bool)
        ensures
            r == held(self.view(), address as int, value@),
    {
        proof {
            use_type_invariant(self);
        }
        if address < 1 || address - 1 > CV_SIZE || value.len() > CV_SIZE - (address - 1) {
            return false;
        }
        let mut i: usize = 0;
        while i < value.len()
            invariant
                i <= value@.len(),
                1 <= address,
                address - 1 + value@.len() <= CV_SIZE,
                self.cvs@.len() == CV_SIZE,
                forall|k: int|
                    0 <= k < i ==> self.view().byte(address + k) == Ok::<u8, Error>(
                        #[trigger] value@[k],
                    ),
            decreases value@.len() - i,
        {
            if self.cvs[address - 1 + i] != value[i] {
                assert(self.view().byte(address + i) != Ok::<u8, Error>(value@[i as int]));
                return false;
            }
            i = i + 1;
        }
        true
    }

    /// Puts the values where they belong; fails if one of them has no variable to go to.
    fn put(&mut self, address: usize, value: &[u8], force: bool) -> (r: Result<(), Error>)
        ensures
            r == image_write_result(address as int, value@.len()),
            final(self).attempts@ == old(self).attempts@.push(
                (Attempt {
                    write: Write { start: address as int, values: value@, force },
                    result: r,
                }),
            ),
            r is Err ==> final(self).cvs@ == old(self).cvs@,
            r is Ok ==> final(self).cvs@ == Seq::new(
                CV_SIZE as nat,
                |i: int|
                    if address - 1 <= i < address - 1 + value@.len() {
                        value@[i - (address - 1)]
                    } else {
                        old(self).cvs@[i]
                    },
            ),
    {
        proof {
            use_type_invariant(&*self);
        }
        let ghost write = Write { start: address as int, values: value@, force };
        let ghost before = self.attempts@;
        if address < 1 || address - 1 > CV_SIZE || value.len() > CV_SIZE - (address - 1) {
            self.attempts = Ghost(
                before.push(Attempt { write, result: Err(Error::InvalidAddress) }),
            );
            return Err(Error::InvalidAddress);
        }
        let start: usize = address - 1;
        let ghost cvs = self.cvs@;
        let mut i: usize = 0;
        while i < value.len()
            invariant
                i <= value@.len(),
                start + value@.len() <= CV_SIZE,
                self.cvs@.len() == CV_SIZE,
                cvs.len() == CV_SIZE,
                self.attempts@ == before,
                forall|k: int|
                    0 <= k < CV_SIZE ==> #[trigger] self.cvs@[k] == (if start <= k < start + i {
                        value@[k - start]
                    } else {
                        cvs[k]
                    }),
            decreases value@.len() - i,
        {
            self.cvs[start + i] = value[i];
            i = i + 1;
        }
        self.attempts = Ghost(before.push(Attempt { write, result: Ok(()) }));
        Ok(())
    }
}

impl Store for CvImage {
    closed spec fn view(&self) -> StoreModel {
        let cvs = self.cvs@;
        StoreModel {
            cells: |a: int| image_byte(cvs, a),
            attempts: self.attempts@,
        }
    }

    fn read_byte(&self, address: usize) -> Result<u8, Error> {
        if 1 <= address && address <= self.cvs.len() {
            Ok(self.cvs[address - 1])
        } else {
            Err(Error::InvalidAddress)
        }
    }

    fn read_bytes(&self, start: usize, len: usize) -> Result<&[u8], Error> {
        if len == 0 {
            proof {
                assert(self.cvs@.subrange(0, 0) =~= Seq::<u8>::empty());
            }
            return Ok(vstd::slice::slice_subrange(self.cvs.as_slice(), 0, 0));
        }
        if start < 1 || start > self.cvs.len() || len > self.cvs.len() - (start - 1) {
            proof {
                self.lemma_range_outside(start as int, len as nat);
            }
            return Err(Error::InvalidAddress);
        }
        proof {
            self.lemma_range_inside(start as int, len as nat);
        }
        Ok(vstd::slice::slice_subrange(self.cvs.as_slice(), start - 1, start - 1 + len))
    }

    fn write_byte(&mut self, address: usize, value: u8) -> (r: Result<(), Error>)
        ensures
            r == image_write_result(address as int, 1),
            r is Err ==> forall|a: int| #[trigger]
                final(self).view().byte(a) == old(self).view().byte(a),
    {
        let bytes: [u8; 1] = [value];
        proof {
            use_type_invariant(&*self);
            assert(bytes@ =~= seq![value]);
        }
        self.put(address, bytes.as_slice(), false)
    }

    fn write_bytes(&mut self, address: usize, value: &[u8], force: bool) -> (r: Result<(), Error>)
        ensures
            r == image_write_result(address as int, value@.len()),
            r is Err ==> forall|a: int| #[trigger]
                final(self).view().byte(a) == old(self).view().byte(a),
    {
        proof {
            use_type_invariant(&*self);
        }
        self.put(address, value, force)
    }
}

impl CvImage {
    /// A read of variables that exist gives their values.
    proof fn lemma_range_inside(&self, start: int, len: nat)
        requires
            1 <= start,
            start - 1 + len <= self.cvs@.len(),
        ensures
            self.view().range(start, len) == Ok::<Seq<u8>, Error>(
                self.cvs@.subrange(start - 1, start - 1 + len),
            ),
        decreases len,
    {
        if len > 0 {
            self.lemma_range_inside(start, (len - 1) as nat);
            assert(self.cvs@.subrange(start - 1, start - 1 + len) =~= self.cvs@.subrange(
                start - 1,
                start - 1 + len - 1,
            ).push(self.cvs@[start - 1 + len - 1]));
        } else {
            assert(self.cvs@.subrange(start - 1, start - 1) =~= Seq::<u8>::empty());
        }
    }

    /// A read that goes beyond the variables that exist fails.
    proof fn lemma_range_outside(&self, start: int, len: nat)
        requires
            0 <= start,
            len > 0,
            start < 1 || start - 1 + len > self.cvs@.len(),
        ensures
            self.view().range(start, len) == Err::<Seq<u8>, Error>(Error::InvalidAddress),
        decreases len,
    {
        reveal_with_fuel(StoreModel::range, 2);
        if len > 1 && (start < 1 || start - 1 + len - 1 > self.cvs@.len()) {
            self.lemma_range_outside(start, (len - 1) as nat);
        } else if len > 1 {
            self.lemma_range_inside(start, (len - 1) as nat);
        }
    }
}

/// The part of the flash memory that is erased to write the variables, from one offset up to but
/// not including another one.
pub open spec fn flash_span(offset: u32, erase_size: u32) -> (int, int) {
    (
        offset as int,
        offset + (if erase_size >= CV_SIZE {
            erase_size as int
        } else {
            CV_SIZE as int
        }),
    )
}

/// The part of the flash memory that holds the variables, from an offset up to but not
/// including another one: whole sectors of `erase_size` bytes are erased at once, and the
/// variables take at least one.
pub fn flash_range(offset: u32, erase_size: u32) -> (r: (u32, u32))
    requires
        offset + CV_SIZE <= u32::MAX,
        offset + erase_size <= u32::MAX,
    ensures
        (r.0 as int, r.1 as int) == flash_span(offset, erase_size),
{
    let len: u32 = if erase_size >= CV_SIZE as u32 {
        erase_size
    } else {
        CV_SIZE as u32
    };
    (offset, offset + len)
}

/// The variables are numbered from 1 on, in the order of their values, and there are no others: a
/// value that is put at the end is the one of the next number, and leaves the others as they are.
pub proof fn variables_are_numbered_from_one(values: Seq<u8>, value: u8, address: int)
    ensures
        image_byte(values.push(value), values.len() + 1int) == Ok::<u8, Error>(value),
        address != values.len() + 1 ==> image_byte(values.push(value), address) == image_byte(
            values,
            address,
        ),
        image_byte(Seq::<u8>::empty(), address) == Err::<u8, Error>(Error::InvalidAddress),
{
}

/// A write succeeds exactly if every variable that it goes to is one of the 512 that there are.
pub proof fn writes_stay_inside(address: int, len: nat)
    requires
        len > 0,
    ensures
        image_write_result(address, len) is Ok <==> forall|a: int|
            #![trigger in_image(a)]
            address <= a < address + len ==> in_image(a),
        image_write_result(address, len) matches Err(e) ==> e == Error::InvalidAddress,
{
    if forall|a: int| #![trigger in_image(a)] address <= a < address + len ==> in_image(a) {
        assert(in_image(address) && in_image(address + len - 1));
    }
}

/// Whether there is a variable with the given number.
pub open spec fn in_image(address: int) -> bool {
    1 <= address <= 512
}

/// The flash memory that is erased begins where the variables begin, holds all of them and at least
/// one whole sector, and is no longer than one of these two takes.
pub proof fn erased_flash_holds_the_variables(offset: u32, erase_size: u32)
    ensures
        ({
            let (from, to) = flash_span(offset, erase_size);
            &&& from == offset
            &&& to - from >= 512
            &&& to - from >= erase_size
            &&& to - from == 512 || to - from == erase_size
        }),
{
}

/// Values are held exactly if they can be written and writing them changes no variable, so that
/// there is no need to write them.
pub proof fn held_values_need_no_write(before: StoreModel, after: StoreModel, write: Write)
    requires
        store::attempted(before, after, write, Ok(())),
        1 <= write.start,
        write.start + write.values.len() <= 513,
    ensures
        held(before, write.start, write.values) <==> forall|a: int| #[trigger]
            after.byte(a) == before.byte(a),
{
    let (start, values) = (write.start, write.values);
    if held(before, start, values) {
        assert forall|a: int| #[trigger] after.byte(a) == before.byte(a) by {
            if write.covers(a) {
                assert(before.byte(start + (a - start)) == Ok::<u8, Error>(values[a - start]));
            }
        }
    }
    if forall|a: int| #[trigger] after.byte(a) == before.byte(a) {
        assert forall|i: int| 0 <= i < values.len() implies before.byte(start + i) == Ok::<
            u8,
            Error,
        >(#[trigger] values[i]) by {
            assert(write.covers(start + i));
            assert(after.byte(start + i) == before.byte(start + i));
        }
    }
}

/// Values that go beyond the variables that there are are never held.
pub proof fn values_outside_are_not_held(store: StoreModel, address: int, values: Seq<u8>)
    requires
        address < 1 || address + values.len() > 513,
    ensures
        !held(store, address, values),
{
}

} // verus!
