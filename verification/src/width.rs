//! Tag widths: how many bits tell a number of alternatives apart.

use crate::layout::{
    field_models, option_models, Field, FieldModel, FieldType, OptionModel, Stream, TypeModel,
};
use vstd::arithmetic::power2::{lemma_pow2_unfold, pow2};
use vstd::prelude::*;
use vstd::std_specs::bits::u64_leading_zeros;

verus! {

/// The number of bits that distinguish `n` alternatives: the least `k` with
/// `n <= 2^k`. Zero alternatives need no bits here; callers that must reject
/// them do so before asking.
pub open spec fn tag_width(n: nat) -> nat
    decreases n,
{
    if n <= 1 {
        0
    } else {
        1 + tag_width((n + 1) / 2)
    }
}

/// The number of binary digits of `m`, none for zero.
pub open spec fn bit_length(m: nat) -> nat
    decreases m,
{
    if m == 0 {
        0
    } else {
        1 + bit_length(m / 2)
    }
}

/// `tag_width(n)` is the ceiling of the binary logarithm of `n`: `n` fits in
/// `2^tag_width(n)` values and does not fit in half as many.
pub proof fn lemma_tag_width_is_ceil_log2(n: nat)
    requires
        n >= 1,
    ensures
        n <= pow2(tag_width(n)),
        tag_width(n) > 0 ==> pow2((tag_width(n) - 1) as nat) < n,
    decreases n,
{
    if n <= 1 {
        assert(pow2(0) == 1) by {
            vstd::arithmetic::power2::lemma2_to64();
        }
    } else {
        let h = (n + 1) / 2;
        lemma_tag_width_is_ceil_log2(h);
        let k = tag_width(h);
        assert(tag_width(n) == k + 1);
        lemma_pow2_unfold(k + 1);
        if k > 0 {
            lemma_pow2_unfold(k);
        } else {
            assert(pow2(0) == 1) by {
                vstd::arithmetic::power2::lemma2_to64();
            }
        }
    }
}

/// The tag width of `n` is the bit length of `n - 1`.
pub proof fn lemma_tag_width_is_bit_length(n: nat)
    requires
        n >= 1,
    ensures
        tag_width(n) == bit_length((n - 1) as nat),
    decreases n,
{
    if n > 1 {
        lemma_tag_width_is_bit_length((n + 1) / 2);
        assert(((n + 1) / 2 - 1) as nat == ((n - 1) as nat) / 2);
    }
}

proof fn lemma_leading_zeros_is_bit_length(m: u64)
    ensures
        u64_leading_zeros(m) == 64 - bit_length(m as nat),
    decreases m,
{
    reveal(u64_leading_zeros);
    if m != 0 {
        lemma_leading_zeros_is_bit_length(m / 2);
    }
}

/// The number of bits in a value of type `T`.
pub fn num_bits<T>() -> (bits: Option<usize>)
    ensures
        bits == if vstd::layout::size_of::<T>() * 8 <= usize::MAX {
            Some((vstd::layout::size_of::<T>() * 8) as usize)
        } else {
            None
        },
{
    core::mem::size_of::<T>().checked_mul(8)
}

/// The tag width of `x` alternatives, or `None` where there is none to tell
/// apart.
pub fn log2(x: usize) -> (bits: Option<u32>)
    ensures
        bits == if x == 0 {
            None
        } else {
            Some(tag_width(x as nat) as u32)
        },
        x > 0 ==> tag_width(x as nat) <= 64,
{
    broadcast use vstd::layout::layout_of_primitives;

    if x == 0 {
        return None;
    }
    let m: u64 = (x - 1) as u64;
    let zeros: u32 = m.leading_zeros();
    proof {
        lemma_leading_zeros_is_bit_length(m);
        lemma_tag_width_is_bit_length(x as nat);
        vstd::std_specs::bits::axiom_u64_leading_zeros(m);
    }
    match num_bits::<u64>() {
        Some(bits) => Some(bits as u32 - zeros),
        None => None,
    }
}

/// The width of the length prefix that precedes every vector.
pub const LENGTH_BITS: u32 = 32;

/// The summed width of the first `k` of `fields`, or `None` where one of
/// them has no width.
pub open spec fn fields_width(fields: Seq<FieldModel>, k: nat) -> Option<nat>
    decreases fields, k,
{
    if k == 0 || k > fields.len() {
        Some(0)
    } else {
        match (fields_width(fields, (k - 1) as nat), fields[k - 1].typ.width()) {
            (Some(before), Some(last)) => Some(before + last),
            _ => None,
        }
    }
}

/// The width of a record of `fields`: the sum of the widths of them all.
pub open spec fn record_width(fields: Seq<FieldModel>) -> Option<nat> {
    fields_width(fields, fields.len())
}

/// The width of the widest payload among the first `k` of `options`, or
/// `None` where one of these payloads has no width.
pub open spec fn widest_payload(options: Seq<OptionModel>, k: nat) -> Option<nat>
    decreases options, k,
{
    if k == 0 || k > options.len() {
        Some(0)
    } else {
        match (widest_payload(options, (k - 1) as nat), fields_width(
            options[k - 1].fields,
            options[k - 1].fields.len(),
        )) {
            (Some(before), Some(last)) => Some(
                if before >= last {
                    before
                } else {
                    last
                },
            ),
            _ => None,
        }
    }
}

impl TypeModel {
    /// The bits that select among a union's options; other types have none.
    /// A union without options has no such width.
    pub open spec fn option_width(self) -> Option<nat> {
        match self {
            TypeModel::Scalar(_) => Some(0),
            TypeModel::LengthPrefix => Some(0),
            TypeModel::TaggedUnion(options) => if options.len() == 0 {
                None
            } else {
                Some(tag_width(options.len()))
            },
        }
    }

    /// The bits that hold the value. The options of a union overlap, so a
    /// union is as wide as its widest payload.
    pub open spec fn data_width(self) -> Option<nat>
        decreases self, 0nat,
    {
        match self {
            TypeModel::Scalar(bits) => Some(bits),
            TypeModel::LengthPrefix => Some(LENGTH_BITS as nat),
            TypeModel::TaggedUnion(options) => widest_payload(options, options.len()),
        }
    }

    /// The whole width: option width and data width together.
    pub open spec fn width(self) -> Option<nat>
        decreases self, 1nat,
    {
        match (self.option_width(), self.data_width()) {
            (Some(tag), Some(data)) => Some(tag + data),
            _ => None,
        }
    }
}

/// A width as a machine word holds it: `None` where there is no width or it
/// exceeds 32 bits.
pub open spec fn fit(width: Option<nat>) -> Option<u32> {
    match width {
        Some(w) => if w <= u32::MAX {
            Some(w as u32)
        } else {
            None
        },
        None => None,
    }
}

/// Where a record has a width, each prefix of it has one that is no larger.
pub proof fn lemma_fields_width_grows(fields: Seq<FieldModel>, j: nat, k: nat)
    requires
        j <= k <= fields.len(),
        fields_width(fields, k) is Some,
    ensures
        fields_width(fields, j) is Some,
        fields_width(fields, j).unwrap() <= fields_width(fields, k).unwrap(),
    decreases k,
{
    if j < k {
        lemma_fields_width_grows(fields, j, (k - 1) as nat);
    }
}

/// Where the widest payload of some options is known, that of fewer of them
/// is known and no larger.
pub proof fn lemma_widest_payload_grows(options: Seq<OptionModel>, j: nat, k: nat)
    requires
        j <= k <= options.len(),
        widest_payload(options, k) is Some,
    ensures
        widest_payload(options, j) is Some,
        widest_payload(options, j).unwrap() <= widest_payload(options, k).unwrap(),
    decreases k,
{
    if j < k {
        lemma_widest_payload_grows(options, j, (k - 1) as nat);
    }
}

/// The summed width of `fields`, where every field has a width and the sum
/// fits in 32 bits.
pub fn fields_total_width(fields: &Vec<Field>) -> (bits: Option<u32>)
    ensures
        bits == fit(record_width(field_models(fields@))),
    decreases fields, 0nat,
{
    let ghost models = field_models(fields@);
    let mut sum: u32 = 0;
    let mut i: usize = 0;
    while i < fields.len()
        invariant
            i <= fields.len(),
            models == field_models(fields@),
            fields_width(models, i as nat) == Some(sum as nat),
        decreases fields.len() - i,
    {
        let next = match fields[i].typ.width() {
            Some(w) => sum.checked_add(w),
            None => None,
        };
        match next {
            Some(total) => {
                sum = total;
            },
            None => {
                proof {
                    if fields_width(models, models.len()) is Some {
                        lemma_fields_width_grows(models, (i + 1) as nat, models.len());
                    }
                }
                return None;
            },
        }
        i += 1;
    }
    Some(sum)
}

impl FieldType {
    /// The bits that select among a union's options; a scalar and a length
    /// prefix have none. `None` for a union without options.
    pub fn option_width(&self) -> (bits: Option<u32>)
        ensures
            bits == fit(self@.option_width()),
    {
        match self {
            FieldType::Bits(_) => Some(0),
            FieldType::Length => Some(0),
            FieldType::Union(options) => log2(options.len()),
        }
    }

    /// The bits that hold the value: the scalar's own width, 32 for a length
    /// prefix, the widest payload for a union. `None` where a nested width is
    /// missing or the result exceeds 32 bits.
    pub fn data_width(&self) -> (bits: Option<u32>)
        ensures
            bits == fit(self@.data_width()),
        decreases self, 0nat,
    {
        match self {
            FieldType::Bits(w) => Some(*w),
            FieldType::Length => Some(LENGTH_BITS),
            FieldType::Union(options) => {
                let ghost models = option_models(options@);
                let mut widest: u32 = 0;
                let mut i: usize = 0;
                while i < options.len()
                    invariant
                        i <= options.len(),
                        self == FieldType::Union(*options),
                        models == option_models(options@),
                        widest_payload(models, i as nat) == Some(widest as nat),
                    decreases options.len() - i,
                {
                    match fields_total_width(&options[i].element_type) {
                        Some(payload) => {
                            if payload > widest {
                                widest = payload;
                            }
                        },
                        None => {
                            proof {
                                if widest_payload(models, models.len()) is Some {
                                    lemma_widest_payload_grows(
                                        models,
                                        (i + 1) as nat,
                                        models.len(),
                                    );
                                }
                            }
                            return None;
                        },
                    }
                    i += 1;
                }
                Some(widest)
            },
        }
    }

    /// The whole width of a field of this type: option width and data width
    /// together. `None` where either is missing or the sum exceeds 32 bits.
    pub fn width(&self) -> (bits: Option<u32>)
        ensures
            bits == fit(self@.width()),
        decreases self, 1nat,
    {
        match (self.option_width(), self.data_width()) {
            (Some(tag), Some(data)) => tag.checked_add(data),
            _ => None,
        }
    }
}

impl Stream {
    /// The width of one element of the stream: the sum of the widths of its
    /// fields.
    pub fn element_width(&self) -> (bits: Option<u32>)
        ensures
            bits == fit(record_width(self@.fields)),
    {
        fields_total_width(&self.element_type)
    }
}

} // verus!
