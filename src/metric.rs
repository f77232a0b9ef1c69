use vstd::prelude::*;

use crate::codec::{ENDIAN, Endian, MetricType, lemma_u64_round_trip, u64_bytes, u64_value};
use crate::view::{ByteView, WriteError, overlay};
use vstd::utf8::encode_utf8;
use crate::{METRIC_NAME_MAX_LEN, STRING_BLOCK_LEN};

verus! {

/// Mask of the bits of an item identifier that the layout keeps: the low ten.
pub const ITEM_MASK: u32 = 0x3ff;

/// How a metric's value is to be read.
#[derive(Debug, Clone, Copy, PartialEq, Eq, Structural)]
pub enum Semamtics {
    /// A monotonic accumulator.
    Counter,
    /// A point-in-time sample.
    Instant,
    /// A discrete or state value.
    Discrete,
}

/// The external code of a semantic classification.
pub open spec fn sem_code(s: Semamtics) -> u32 {
    match s {
        Semamtics::Counter => 1,
        Semamtics::Instant => 3,
        Semamtics::Discrete => 4,
    }
}

impl Semamtics {
    /// The classification's external code.
    pub fn code(&self) -> (r: u32)
        ensures
            r == sem_code(*self),
    {
        match self {
            Semamtics::Counter => 1,
            Semamtics::Instant => 3,
            Semamtics::Discrete => 4,
        }
    }
}

/// The contents of a fresh placeholder region: a zeroed text block, positioned
/// at its start.
pub open spec fn placeholder_view() -> (Seq<u8>, nat, Endian) {
    (Seq::new(STRING_BLOCK_LEN as nat, |i: int| 0u8), 0, ENDIAN)
}

/// Whether the lengths that a metric's layout slots bound are all in range.
pub open spec fn lengths_fit(name: &str, shorthelp: &str, longhelp: &str) -> bool {
    &&& name.len() < METRIC_NAME_MAX_LEN
    &&& shorthelp.len() < STRING_BLOCK_LEN
    &&& longhelp.len() < STRING_BLOCK_LEN
}

/// The uniform view of a metric, whatever the type of its value.
pub trait MMVMetric {
    spec fn spec_name(&self) -> Seq<char>;

    spec fn spec_item(&self) -> u32;

    spec fn spec_type_code(&self) -> u32;

    spec fn spec_sem(&self) -> Semamtics;

    spec fn spec_dim(&self) -> u32;

    spec fn spec_indom(&self) -> u32;

    spec fn spec_shorthelp(&self) -> Seq<char>;

    spec fn spec_longhelp(&self) -> Seq<char>;

    /// The encoding of the current value in byte order `order`, if it has one.
    spec fn value_encoding(&self, order: Endian) -> Option<Seq<u8>>;

    /// The backing region's bytes, write position and byte order.
    spec fn backing(&self) -> (Seq<u8>, nat, Endian);

    fn name(&self) -> (r: &str)
        ensures
            r@ == self.spec_name(),
    ;

    fn item(&self) -> (r: u32)
        ensures
            r == self.spec_item(),
    ;

    fn type_code(&self) -> (r: u32)
        ensures
            r == self.spec_type_code(),
    ;

    fn sem(&self) -> (r: &Semamtics)
        ensures
            *r == self.spec_sem(),
    ;

    fn dim(&self) -> (r: u32)
        ensures
            r == self.spec_dim(),
    ;

    fn indom(&self) -> (r: u32)
        ensures
            r == self.spec_indom(),
    ;

    fn shorthelp(&self) -> (r: &str)
        ensures
            r@ == self.spec_shorthelp(),
    ;

    fn longhelp(&self) -> (r: &str)
        ensures
            r@ == self.spec_longhelp(),
    ;

    /// Writes the current value's encoding at the cursor's position; the metric
    /// itself is left as it is.
    fn write_value(&mut self, cursor: &mut ByteView) -> (r: Result<(), WriteError>)
        ensures
            final(self).backing() == old(self).backing(),
            final(self).spec_name() == old(self).spec_name(),
            final(self).spec_item() == old(self).spec_item(),
            final(self).spec_type_code() == old(self).spec_type_code(),
            final(self).spec_sem() == old(self).spec_sem(),
            final(self).spec_dim() == old(self).spec_dim(),
            final(self).spec_indom() == old(self).spec_indom(),
            final(self).spec_shorthelp() == old(self).spec_shorthelp(),
            final(self).spec_longhelp() == old(self).spec_longhelp(),
            forall|o: Endian| final(self).value_encoding(o) == old(self).value_encoding(o),
            old(self).value_encoding(old(cursor)@.2) is None ==> {
                &&& r == Err::<(), WriteError>(WriteError::InteriorNul)
                &&& final(cursor)@ == old(cursor)@
            },
            old(self).value_encoding(old(cursor)@.2) is Some ==> {
                let e = old(self).value_encoding(old(cursor)@.2)->0;
                if old(cursor)@.1 + e.len() <= old(cursor)@.0.len() {
                    &&& r is Ok
                    &&& final(cursor)@.0 == overlay(old(cursor)@.0, old(cursor)@.1 as int, e)
                    &&& final(cursor)@.1 == old(cursor)@.1 + e.len()
                    &&& final(cursor)@.2 == old(cursor)@.2
                } else {
                    &&& r == Err::<(), WriteError>(WriteError::RegionTooSmall)
                    &&& final(cursor)@ == old(cursor)@
                }
            },
    ;

    /// Replaces the backing region; nothing is written into the new one.
    fn set_mmap_view(&mut self, mmap_view: ByteView)
        ensures
            final(self).backing() == mmap_view@,
            final(self).spec_name() == old(self).spec_name(),
            final(self).spec_item() == old(self).spec_item(),
            final(self).spec_type_code() == old(self).spec_type_code(),
            final(self).spec_sem() == old(self).spec_sem(),
            final(self).spec_dim() == old(self).spec_dim(),
            final(self).spec_indom() == old(self).spec_indom(),
            final(self).spec_shorthelp() == old(self).spec_shorthelp(),
            final(self).spec_longhelp() == old(self).spec_longhelp(),
            forall|o: Endian| final(self).value_encoding(o) == old(self).value_encoding(o),
    ;
}

/// One named, typed measurement, mirrored into a backing byte region.
pub struct Metric<T> {
    name: String,
    item: u32,
    sem: Semamtics,
    indom: u32,
    dim: u32,
    shorthelp: String,
    longhelp: String,
    val: T,
    mmap_view: ByteView,
}

impl<T: MetricType> Metric<T> {
    /// The current value.
    pub closed spec fn value(&self) -> T {
        self.val
    }

    /// The lengths stay within their slots and the item identifier within its bits.
    pub closed spec fn wf(&self) -> bool {
        &&& (encode_utf8(self.name@).len() as usize) < METRIC_NAME_MAX_LEN
        &&& (encode_utf8(self.shorthelp@).len() as usize) < STRING_BLOCK_LEN
        &&& (encode_utf8(self.longhelp@).len() as usize) < STRING_BLOCK_LEN
        &&& self.item <= ITEM_MASK
    }

    /// A metric with the given metadata and value, backed by a fresh placeholder
    /// region. Only the low bits of `item` are kept.
    pub fn new(
        name: &str,
        item: u32,
        sem: Semamtics,
        dim: u32,
        init_val: T,
        shorthelp: &str,
        longhelp: &str,
    ) -> (r: Self)
        requires
            lengths_fit(name, shorthelp, longhelp),
        ensures
            r.wf(),
            r.spec_name() == name@,
            r.spec_item() == item & ITEM_MASK,
            r.spec_item() == item % 1024,
            r.spec_sem() == sem,
            r.spec_dim() == dim,
            r.spec_indom() == 0,
            r.spec_shorthelp() == shorthelp@,
            r.spec_longhelp() == longhelp@,
            r.spec_type_code() == T::code(),
            r.value() == init_val,
            r.backing() == placeholder_view(),
    {
        assert(item & 0x3ff == item % 1024) by (bit_vector);
        assert(item & 0x3ff <= 0x3ff) by (bit_vector);
        let name_owned = name.to_owned();
        let shorthelp_owned = shorthelp.to_owned();
        let longhelp_owned = longhelp.to_owned();
        Metric {
            name: name_owned,
            item: item & ITEM_MASK,
            sem,
            indom: 0,
            dim,
            shorthelp: shorthelp_owned,
            longhelp: longhelp_owned,
            val: init_val,
            mmap_view: ByteView::zeroed(STRING_BLOCK_LEN, ENDIAN),
        }
    }
}

/// What `set_val` leaves behind: the new value is in place whatever happens,
/// the metadata stay, and the backing region holds the new value's encoding
/// from its start, or keeps its bytes where the encoding fails or does not fit.
pub open spec fn set_val_outcome<T: MetricType>(
    before: Metric<T>,
    after: Metric<T>,
    v: T,
    r: Result<(), WriteError>,
) -> bool {
    &&& after.value() == v
    &&& after.wf() == before.wf()
    &&& after.spec_name() == before.spec_name()
    &&& after.spec_item() == before.spec_item()
    &&& after.spec_sem() == before.spec_sem()
    &&& after.spec_dim() == before.spec_dim()
    &&& after.spec_indom() == before.spec_indom()
    &&& after.spec_shorthelp() == before.spec_shorthelp()
    &&& after.spec_longhelp() == before.spec_longhelp()
    &&& after.spec_type_code() == before.spec_type_code()
    &&& match v.encoding(before.backing().2) {
        None => {
            &&& r == Err::<(), WriteError>(WriteError::InteriorNul)
            &&& after.backing() == (before.backing().0, 0nat, before.backing().2)
        },
        Some(e) => if e.len() <= before.backing().0.len() {
            &&& r is Ok
            &&& after.backing() == (overlay(before.backing().0, 0, e), e.len(), before.backing().2)
        } else {
            &&& r == Err::<(), WriteError>(WriteError::RegionTooSmall)
            &&& after.backing() == (before.backing().0, 0nat, before.backing().2)
        },
    }
}

impl<T: MetricType> Metric<T> {
    /// `new` for callers that have not checked the lengths: nothing where one of
    /// them is out of range.
    pub fn try_new(
        name: &str,
        item: u32,
        sem: Semamtics,
        dim: u32,
        init_val: T,
        shorthelp: &str,
        longhelp: &str,
    ) -> (r: Option<Self>)
        ensures
            r is Some <==> lengths_fit(name, shorthelp, longhelp),
            r is Some ==> {
                let m = r->0;
                &&& m.wf()
                &&& m.spec_name() == name@
                &&& m.spec_item() == item & ITEM_MASK
                &&& m.spec_sem() == sem
                &&& m.spec_dim() == dim
                &&& m.spec_indom() == 0
                &&& m.spec_shorthelp() == shorthelp@
                &&& m.spec_longhelp() == longhelp@
                &&& m.spec_type_code() == T::code()
                &&& m.value() == init_val
                &&& m.backing() == placeholder_view()
            },
    {
        if name.len() < METRIC_NAME_MAX_LEN && shorthelp.len() < STRING_BLOCK_LEN
            && longhelp.len() < STRING_BLOCK_LEN {
            Some(Self::new(name, item, sem, dim, init_val, shorthelp, longhelp))
        } else {
            None
        }
    }

    /// The current value; the backing region is not read.
    pub fn val(&self) -> (r: T)
        ensures
            r == self.value(),
    {
        self.val.copied()
    }

    /// The backing region as the metric sees it.
    pub fn mmap_view(&self) -> (r: &ByteView)
        ensures
            r@ == self.backing(),
    {
        &self.mmap_view
    }

    /// Writes the current value's encoding at the cursor's position, in the
    /// cursor's byte order; the metric itself is left as it is.
    pub fn write_value(&mut self, cursor: &mut ByteView) -> (r: Result<(), WriteError>)
        ensures
            *final(self) == *old(self),
            old(self).value().encoding(old(cursor)@.2) is None ==> {
                &&& r == Err::<(), WriteError>(WriteError::InteriorNul)
                &&& final(cursor)@ == old(cursor)@
            },
            old(self).value().encoding(old(cursor)@.2) is Some ==> {
                let e = old(self).value().encoding(old(cursor)@.2)->0;
                if old(cursor)@.1 + e.len() <= old(cursor)@.0.len() {
                    &&& r is Ok
                    &&& final(cursor)@.0 == overlay(old(cursor)@.0, old(cursor)@.1 as int, e)
                    &&& final(cursor)@.1 == old(cursor)@.1 + e.len()
                    &&& final(cursor)@.2 == old(cursor)@.2
                } else {
                    &&& r == Err::<(), WriteError>(WriteError::RegionTooSmall)
                    &&& final(cursor)@ == old(cursor)@
                }
            },
    {
        let order = cursor.order();
        self.val.write_to_writer(order, cursor)
    }

    /// Rebinds the metric to a new backing region. Nothing is written into it,
    /// and the value and metadata stay as they are.
    pub fn set_mmap_view(&mut self, mmap_view: ByteView)
        ensures
            final(self).backing() == mmap_view@,
            final(self).value() == old(self).value(),
            final(self).wf() == old(self).wf(),
            final(self).spec_name() == old(self).spec_name(),
            final(self).spec_item() == old(self).spec_item(),
            final(self).spec_type_code() == old(self).spec_type_code(),
            final(self).spec_sem() == old(self).spec_sem(),
            final(self).spec_dim() == old(self).spec_dim(),
            final(self).spec_indom() == old(self).spec_indom(),
            final(self).spec_shorthelp() == old(self).spec_shorthelp(),
            final(self).spec_longhelp() == old(self).spec_longhelp(),
    {
        self.mmap_view = mmap_view;
    }

    /// Replaces the value, then writes its encoding at the start of the backing
    /// region, in the region's byte order.
    pub fn set_val(&mut self, new_val: T) -> (r: Result<(), WriteError>)
        ensures
            set_val_outcome(*old(self), *final(self), new_val, r),
    {
        self.val = new_val;
        self.mmap_view.set_position(0);
        let order = self.mmap_view.order();
        self.val.write_to_writer(order, &mut self.mmap_view)
    }
}

impl<T: MetricType> MMVMetric for Metric<T> {
    closed spec fn spec_name(&self) -> Seq<char> {
        self.name@
    }

    closed spec fn spec_item(&self) -> u32 {
        self.item
    }

    closed spec fn spec_type_code(&self) -> u32 {
        T::code()
    }

    closed spec fn spec_sem(&self) -> Semamtics {
        self.sem
    }

    closed spec fn spec_dim(&self) -> u32 {
        self.dim
    }

    closed spec fn spec_indom(&self) -> u32 {
        self.indom
    }

    closed spec fn spec_shorthelp(&self) -> Seq<char> {
        self.shorthelp@
    }

    closed spec fn spec_longhelp(&self) -> Seq<char> {
        self.longhelp@
    }

    open spec fn value_encoding(&self, order: Endian) -> Option<Seq<u8>> {
        self.value().encoding(order)
    }

    closed spec fn backing(&self) -> (Seq<u8>, nat, Endian) {
        self.mmap_view@
    }

    fn name(&self) -> (r: &str) {
        self.name.as_str()
    }

    fn item(&self) -> (r: u32) {
        self.item
    }

    fn type_code(&self) -> (r: u32) {
        self.val.type_code()
    }

    fn sem(&self) -> (r: &Semamtics) {
        &self.sem
    }

    fn dim(&self) -> (r: u32) {
        self.dim
    }

    fn indom(&self) -> (r: u32) {
        self.indom
    }

    fn shorthelp(&self) -> (r: &str) {
        self.shorthelp.as_str()
    }

    fn longhelp(&self) -> (r: &str) {
        self.longhelp.as_str()
    }

    fn write_value(&mut self, cursor: &mut ByteView) -> (r: Result<(), WriteError>) {
        Metric::<T>::write_value(self, cursor)
    }

    fn set_mmap_view(&mut self, mmap_view: ByteView) {
        Metric::<T>::set_mmap_view(self, mmap_view)
    }
}

/// After a successful `set_val`, the current value is the new one and the
/// backing region starts with exactly that value's encoding in the region's
/// byte order.
pub proof fn lemma_set_val_then_read<T: MetricType>(
    before: Metric<T>,
    after: Metric<T>,
    v: T,
    r: Result<(), WriteError>,
)
    requires
        set_val_outcome(before, after, v, r),
        r is Ok,
    ensures
        after.value() == v,
        after.value_encoding(after.backing().2) is Some,
        after.backing().0.subrange(0, after.value_encoding(after.backing().2)->0.len() as int)
            == after.value_encoding(after.backing().2)->0,
{
    let e = v.encoding(before.backing().2)->0;
    assert(overlay(before.backing().0, 0, e).subrange(0, e.len() as int) =~= e);
}

/// After a successful `set_val` with a numeric value, reading the region's
/// first eight bytes back in the region's byte order gives the value's word.
pub proof fn lemma_set_val_then_decode<T: MetricType>(
    before: Metric<T>,
    after: Metric<T>,
    v: T,
    r: Result<(), WriteError>,
)
    requires
        set_val_outcome(before, after, v, r),
        r is Ok,
        v.word() is Some,
    ensures
        after.value() == v,
        u64_value(after.backing().2, after.backing().0) == v.word()->0,
{
    let order = after.backing().2;
    lemma_set_val_then_read(before, after, v, r);
    v.lemma_word_encoding(order);
    lemma_u64_round_trip(order, v.word()->0);
    let a = after.backing().0;
    let e = u64_bytes(order, v.word()->0);
    assert(a.subrange(0, 8) == e);
    assert(a[0] == e[0] && a[1] == e[1] && a[2] == e[2] && a[3] == e[3]);
    assert(a[4] == e[4] && a[5] == e[5] && a[6] == e[6] && a[7] == e[7]);
}

} // verus!
