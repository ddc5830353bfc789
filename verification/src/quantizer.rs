//! The scalar quantizer: owns the trained `[min, max]` range and the
//! configuration (code width, vector dimensionality), dispatches on the
//! runtime element width of incoming batches, and exposes the lifecycle
//! operations (`build`, `retrain`, `update_bounds`, `transform`, `quantize`)
//! together with the metadata needed to persist and reload a trained
//! instance.
//!
//! Vector batches cross the boundary as `ArrayData`: a fixed-width list of
//! components carried as raw IEEE-754 bit patterns of one of the three
//! supported float widths, or a marker naming an unsupported input so the
//! error contracts can report it.

use vstd::prelude::*;
use crate::float_bits::{
    is_nan64, key64, widen16, widen32, f64_bits_key_le, widen_f16_bits, widen_f32_bits,
    POS_INF_64, NEG_INF_64,
};
use crate::bounds::{fold_min, fold_max, fold_bounds, lemma_fold_only_widens};
use crate::codes::{CodeBatch, ScaleJob};

verus! {

/// The trained range, both ends carried as binary64 bit patterns. Before any
/// training it holds the sentinel `(+infinity, -infinity)`.
#[derive(Clone, Copy, Debug, PartialEq, Eq, Structural)]
pub struct Bounds {
    pub start: u64,
    pub end: u64,
}

/// The serializable snapshot of a quantizer: configuration plus trained range.
#[derive(Clone, Copy, Debug, PartialEq, Eq, Structural)]
pub struct ScalarQuantizationMetadata {
    pub num_bits: u16,
    pub dim: usize,
    pub bounds: Bounds,
}

/// The components of one vector batch, as raw bit patterns of their width,
/// or a marker naming an element type the quantizer does not support.
#[derive(Debug)]
pub enum VectorValues {
    Float16(Vec<u16>),
    Float32(Vec<u32>),
    Float64(Vec<u64>),
    Unsupported(String),
}

/// A fixed-width vector batch: `dim` components per vector, all components
/// of all vectors pooled in `values`.
#[derive(Debug)]
pub struct VectorArray {
    pub dim: usize,
    pub values: VectorValues,
}

/// An incoming array: a fixed-width vector batch, or a marker naming an
/// array kind that is no such batch.
#[derive(Debug)]
pub enum ArrayData {
    FixedSizeList(VectorArray),
    Other(String),
}

/// The deterministic failures of this module, each carrying the offending
/// observed type or shape.
#[derive(Debug, PartialEq, Eq)]
pub enum SqError {
    /// The input array is not a fixed-width vector batch.
    NotFixedSizeList { data_type: String },
    /// The batch's element type is not a supported float width (raised where
    /// the caller asked for a float batch specifically).
    NotFloatVector { data_type: String },
    /// The batch's element type is not a supported float width (raised at
    /// the `build` / `retrain` / `quantize` dispatch boundary).
    UnsupportedDataType { data_type: String },
    /// The component count is not a positive multiple of the batch's width.
    InvalidShape { dim: usize, len: usize },
    /// A generic quantizer was reinterpreted as the wrong concrete variant.
    NotScalarQuantizer,
}

/// The tag that tells the surrounding index which quantizer kind it holds.
#[derive(Clone, Copy, Debug, PartialEq, Eq, Structural)]
pub enum QuantizationType {
    Flat,
    Product,
    Scalar,
}

impl VectorValues {
    /// Whether the components are of a supported float width.
    pub open spec fn is_float(&self) -> bool {
        !(self matches VectorValues::Unsupported(_))
    }

    /// The batch's components, each widened to the binary64 pattern that
    /// encodes exactly the same value (binary64 patterns pass unchanged).
    pub open spec fn widened(&self) -> Seq<u64> {
        match self {
            VectorValues::Float16(v) => v@.map_values(|b: u16| widen16(b)),
            VectorValues::Float32(v) => v@.map_values(|b: u32| widen32(b)),
            VectorValues::Float64(v) => v@,
            VectorValues::Unsupported(_) => Seq::empty(),
        }
    }
}

/// Widens every binary16 pattern of a batch to binary64.
fn widen_f16_batch(v: &Vec<u16>) -> (r: Vec<u64>)
    ensures
        r@ == v@.map_values(|b: u16| widen16(b)),
{
    let n = v.len();
    let mut r: Vec<u64> = Vec::new();
    let mut i: usize = 0;
    while i < n
        invariant
            i <= n,
            n == v@.len(),
            r@.len() == i,
            forall|j: int| 0 <= j < i as int ==> r@[j] == widen16(v@[j]),
        decreases n - i,
    {
        r.push(widen_f16_bits(v[i]));
        i += 1;
    }
    proof {
        assert(r@ =~= v@.map_values(|b: u16| widen16(b)));
    }
    r
}

/// Widens every binary32 pattern of a batch to binary64.
fn widen_f32_batch(v: &Vec<u32>) -> (r: Vec<u64>)
    ensures
        r@ == v@.map_values(|b: u32| widen32(b)),
{
    let n = v.len();
    let mut r: Vec<u64> = Vec::new();
    let mut i: usize = 0;
    while i < n
        invariant
            i <= n,
            n == v@.len(),
            r@.len() == i,
            forall|j: int| 0 <= j < i as int ==> r@[j] == widen32(v@[j]),
        decreases n - i,
    {
        r.push(widen_f32_bits(v[i]));
        i += 1;
    }
    proof {
        assert(r@ =~= v@.map_values(|b: u32| widen32(b)));
    }
    r
}

/// Copies a batch of binary64 patterns.
fn copy_u64_vec(v: &Vec<u64>) -> (r: Vec<u64>)
    ensures
        r@ == v@,
{
    let n = v.len();
    let mut r: Vec<u64> = Vec::new();
    let mut i: usize = 0;
    while i < n
        invariant
            i <= n,
            n == v@.len(),
            r@.len() == i,
            forall|j: int| 0 <= j < i as int ==> r@[j] == v@[j],
        decreases n - i,
    {
        r.push(v[i]);
        i += 1;
    }
    proof {
        assert(r@ =~= v@);
    }
    r
}

/// A vector of `n` zero codes.
fn zero_codes(n: usize) -> (r: Vec<u8>)
    ensures
        r@ == Seq::new(n as nat, |i: int| 0u8),
{
    let mut r: Vec<u8> = Vec::new();
    let mut i: usize = 0;
    while i < n
        invariant
            i <= n,
            r@.len() == i,
            forall|j: int| 0 <= j < i as int ==> r@[j] == 0u8,
        decreases n - i,
    {
        r.push(0u8);
        i += 1;
    }
    proof {
        assert(r@ =~= Seq::new(n as nat, |i: int| 0u8));
    }
    r
}

impl VectorArray {
    /// Number of components in the batch.
    pub fn value_count(&self) -> (r: usize)
        ensures
            r == self.values.widened().len(),
    {
        match &self.values {
            VectorValues::Float16(v) => v.len(),
            VectorValues::Float32(v) => v.len(),
            VectorValues::Float64(v) => v.len(),
            VectorValues::Unsupported(_) => 0,
        }
    }

    /// The batch's components, widened to binary64 patterns.
    pub fn widened_values(&self) -> (r: Vec<u64>)
        ensures
            r@ == self.values.widened(),
    {
        match &self.values {
            VectorValues::Float16(v) => widen_f16_batch(v),
            VectorValues::Float32(v) => widen_f32_batch(v),
            VectorValues::Float64(v) => copy_u64_vec(v),
            VectorValues::Unsupported(_) => {
                let r: Vec<u64> = Vec::new();
                proof {
                    assert(r@ =~= self.values.widened());
                }
                r
            },
        }
    }
}

/// Whether a range gives the affine map no valid scale: zero width, or the
/// untrained sentinel where the start lies above the end.
pub open spec fn degenerate(b: Bounds) -> bool {
    key64(b.start) >= key64(b.end)
}

/// What a transform of batch `va` under range `bounds` must return: the
/// shape error on an invalid width, all-zero codes for a degenerate range,
/// and otherwise a scaling job carrying the range and the widened components.
pub open spec fn transform_ok(
    bounds: Bounds,
    va: VectorArray,
    r: Result<SqTransform, SqError>,
) -> bool {
    let w = va.values.widened();
    if va.dim == 0 || w.len() as int % va.dim as int != 0 {
        r == Err::<SqTransform, SqError>(
            SqError::InvalidShape { dim: va.dim, len: w.len() as usize },
        )
    } else if degenerate(bounds) {
        r matches Ok(SqTransform::Codes(cb)) && cb.dim == va.dim && cb.codes@ == Seq::new(
            w.len(),
            |i: int| 0u8,
        )
    } else {
        r matches Ok(SqTransform::Scale(job)) && job.dim == va.dim && job.start == bounds.start
            && job.end == bounds.end && job.values@ == w
    }
}

/// A transform's outcome: finished codes (degenerate range), or a scaling
/// job whose double-precision step the shell performs before handing the
/// results to `codes::finish_transform`.
#[derive(Debug)]
pub enum SqTransform {
    Codes(CodeBatch),
    Scale(ScaleJob),
}

/// Scalar quantization: compresses float vector components into 8-bit codes
/// by linear min-max scaling over one global trained range.
#[derive(Clone, Copy, Debug, PartialEq, Eq, Structural)]
pub struct ScalarQuantizer {
    pub metadata: ScalarQuantizationMetadata,
}

/// A generic quantizer as the surrounding index passes it around; only the
/// scalar variant is modelled here.
#[derive(Clone, Copy, Debug, PartialEq, Eq, Structural)]
pub enum Quantizer {
    Flat,
    FlatBin,
    Product,
    Scalar(ScalarQuantizer),
}

/// The schema descriptor of the code column: a fixed-width list of `dim`
/// unsigned 8-bit items.
#[derive(Clone, Copy, Debug, PartialEq, Eq, Structural)]
pub struct SqCodeField {
    pub dim: usize,
    pub nullable: bool,
    pub item_nullable: bool,
}

impl ScalarQuantizer {
    /// A trained range never holds a NaN end; the untrained sentinel and
    /// every fold of non-NaN starting points keep this.
    pub open spec fn wf(&self) -> bool {
        !is_nan64(self.metadata.bounds.start) && !is_nan64(self.metadata.bounds.end)
    }

    /// A fresh, untrained quantizer holding the sentinel range.
    pub fn new(num_bits: u16, dim: usize) -> (r: Self)
        ensures
            r.wf(),
            r.metadata == (ScalarQuantizationMetadata {
                num_bits,
                dim,
                bounds: Bounds { start: POS_INF_64, end: NEG_INF_64 },
            }),
    {
        ScalarQuantizer {
            metadata: ScalarQuantizationMetadata {
                num_bits,
                dim,
                bounds: Bounds { start: POS_INF_64, end: NEG_INF_64 },
            },
        }
    }

    /// A quantizer with a given, already-trained range.
    pub fn with_bounds(num_bits: u16, dim: usize, bounds: Bounds) -> (r: Self)
        requires
            !is_nan64(bounds.start),
            !is_nan64(bounds.end),
        ensures
            r.wf(),
            r.metadata == (ScalarQuantizationMetadata { num_bits, dim, bounds }),
    {
        let mut sq = Self::new(num_bits, dim);
        sq.metadata.bounds = bounds;
        sq
    }

    /// The configured code width.
    pub fn num_bits(&self) -> (r: u16)
        ensures
            r == self.metadata.num_bits,
    {
        self.metadata.num_bits
    }

    /// The current trained range.
    pub fn bounds(&self) -> (r: Bounds)
        ensures
            r == self.metadata.bounds,
    {
        self.metadata.bounds
    }

    /// Scalar quantization never uses residual encoding.
    pub fn use_residual(&self) -> (r: bool)
        ensures
            r == false,
    {
        false
    }

    /// Folds a batch into the trained range: the new start is the minimum of
    /// the old start and every non-NaN component, the new end the mirror
    /// maximum, so the range never shrinks and NaN never enters it.
    pub fn update_bounds(&mut self, vectors: &VectorArray) -> (r: Result<Bounds, SqError>)
        requires
            old(self).wf(),
        ensures
            final(self).wf(),
            final(self).metadata.num_bits == old(self).metadata.num_bits,
            final(self).metadata.dim == old(self).metadata.dim,
            match vectors.values {
                VectorValues::Unsupported(name) => r == Err::<Bounds, SqError>(
                    SqError::NotFloatVector { data_type: name },
                ) && *final(self) == *old(self),
                _ => {
                    &&& r == Ok::<Bounds, SqError>(final(self).metadata.bounds)
                    &&& final(self).metadata.bounds.start == fold_min(
                        old(self).metadata.bounds.start,
                        vectors.values.widened(),
                    )
                    &&& final(self).metadata.bounds.end == fold_max(
                        old(self).metadata.bounds.end,
                        vectors.values.widened(),
                    )
                    &&& key64(final(self).metadata.bounds.start) <= key64(
                        old(self).metadata.bounds.start,
                    )
                    &&& key64(final(self).metadata.bounds.end) >= key64(
                        old(self).metadata.bounds.end,
                    )
                },
            },
    {
        let widened: Vec<u64> = match &vectors.values {
            VectorValues::Float16(v) => widen_f16_batch(v),
            VectorValues::Float32(v) => widen_f32_batch(v),
            VectorValues::Float64(v) => copy_u64_vec(v),
            VectorValues::Unsupported(name) => {
                return Err(SqError::NotFloatVector { data_type: name.clone() });
            },
        };
        let (lo, hi) = fold_bounds(self.metadata.bounds.start, self.metadata.bounds.end, &widened);
        proof {
            lemma_fold_only_widens(self.metadata.bounds.start, self.metadata.bounds.end, widened@);
        }
        self.metadata.bounds = Bounds { start: lo, end: hi };
        Ok(self.metadata.bounds)
    }

    /// Validates a batch and either finishes it (degenerate range: all-zero
    /// codes, for any input values including NaN) or returns the scaling job
    /// for the shell's double-precision step.
    pub fn transform(&self, data: &ArrayData) -> (r: Result<SqTransform, SqError>)
        requires
            self.wf(),
        ensures
            match *data {
                ArrayData::Other(name) => r == Err::<SqTransform, SqError>(
                    SqError::NotFixedSizeList { data_type: name },
                ),
                ArrayData::FixedSizeList(va) => match va.values {
                    VectorValues::Unsupported(name) => r == Err::<SqTransform, SqError>(
                        SqError::NotFloatVector { data_type: name },
                    ),
                    _ => transform_ok(self.metadata.bounds, va, r),
                },
            },
    {
        match data {
            ArrayData::Other(name) => Err(SqError::NotFixedSizeList { data_type: name.clone() }),
            ArrayData::FixedSizeList(va) => match &va.values {
                VectorValues::Unsupported(name) => Err(
                    SqError::NotFloatVector { data_type: name.clone() },
                ),
                _ => self.transform_batch(va),
            },
        }
    }

    /// The transform on a batch already known to be of a supported width.
    fn transform_batch(&self, va: &VectorArray) -> (r: Result<SqTransform, SqError>)
        requires
            self.wf(),
            va.values.is_float(),
        ensures
            transform_ok(self.metadata.bounds, *va, r),
    {
        let n = va.value_count();
        if va.dim == 0 || n % va.dim != 0 {
            return Err(SqError::InvalidShape { dim: va.dim, len: n });
        }
        if f64_bits_key_le(self.metadata.bounds.end, self.metadata.bounds.start) {
            let codes = zero_codes(n);
            Ok(SqTransform::Codes(CodeBatch { dim: va.dim, codes }))
        } else {
            let values = va.widened_values();
            Ok(
                SqTransform::Scale(
                    ScaleJob {
                        dim: va.dim,
                        start: self.metadata.bounds.start,
                        end: self.metadata.bounds.end,
                        values,
                    },
                ),
            )
        }
    }

    /// `transform`, reached through the generic dispatch boundary: an
    /// unsupported element type is reported as such.
    pub fn quantize(&self, vectors: &ArrayData) -> (r: Result<SqTransform, SqError>)
        requires
            self.wf(),
        ensures
            match *vectors {
                ArrayData::Other(name) => r == Err::<SqTransform, SqError>(
                    SqError::NotFixedSizeList { data_type: name },
                ),
                ArrayData::FixedSizeList(va) => match va.values {
                    VectorValues::Unsupported(name) => r == Err::<SqTransform, SqError>(
                        SqError::UnsupportedDataType { data_type: name },
                    ),
                    _ => transform_ok(self.metadata.bounds, va, r),
                },
            },
    {
        match vectors {
            ArrayData::Other(name) => Err(SqError::NotFixedSizeList { data_type: name.clone() }),
            ArrayData::FixedSizeList(va) => match &va.values {
                VectorValues::Unsupported(name) => Err(
                    SqError::UnsupportedDataType { data_type: name.clone() },
                ),
                _ => self.transform_batch(va),
            },
        }
    }

    /// Builds a quantizer from a sample batch: derives the width from the
    /// batch, starts from the sentinel range and trains once.
    pub fn build(data: &ArrayData, num_bits: u16) -> (r: Result<ScalarQuantizer, SqError>)
        ensures
            match *data {
                ArrayData::Other(name) => r == Err::<ScalarQuantizer, SqError>(
                    SqError::NotFixedSizeList { data_type: name },
                ),
                ArrayData::FixedSizeList(va) => match va.values {
                    VectorValues::Unsupported(name) => r == Err::<ScalarQuantizer, SqError>(
                        SqError::UnsupportedDataType { data_type: name },
                    ),
                    _ => r matches Ok(q) && q.wf() && q.metadata.num_bits == num_bits
                        && q.metadata.dim == va.dim && q.metadata.bounds.start == fold_min(
                        POS_INF_64,
                        va.values.widened(),
                    ) && q.metadata.bounds.end == fold_max(NEG_INF_64, va.values.widened()),
                },
            },
    {
        match data {
            ArrayData::Other(name) => Err(SqError::NotFixedSizeList { data_type: name.clone() }),
            ArrayData::FixedSizeList(va) => match &va.values {
                VectorValues::Unsupported(name) => Err(
                    SqError::UnsupportedDataType { data_type: name.clone() },
                ),
                _ => {
                    let mut quantizer = Self::new(num_bits, va.dim);
                    match quantizer.update_bounds(va) {
                        Ok(_) => Ok(quantizer),
                        Err(e) => Err(e),
                    }
                },
            },
        }
    }

    /// Trains further, folding the batch into the existing range: bounds
    /// only ever grow, they are never recomputed from scratch.
    pub fn retrain(&mut self, data: &ArrayData) -> (r: Result<(), SqError>)
        requires
            old(self).wf(),
        ensures
            final(self).wf(),
            final(self).metadata.num_bits == old(self).metadata.num_bits,
            final(self).metadata.dim == old(self).metadata.dim,
            match *data {
                ArrayData::Other(name) => r == Err::<(), SqError>(
                    SqError::NotFixedSizeList { data_type: name },
                ) && *final(self) == *old(self),
                ArrayData::FixedSizeList(va) => match va.values {
                    VectorValues::Unsupported(name) => r == Err::<(), SqError>(
                        SqError::UnsupportedDataType { data_type: name },
                    ) && *final(self) == *old(self),
                    _ => {
                        &&& r == Ok::<(), SqError>(())
                        &&& final(self).metadata.bounds.start == fold_min(
                            old(self).metadata.bounds.start,
                            va.values.widened(),
                        )
                        &&& final(self).metadata.bounds.end == fold_max(
                            old(self).metadata.bounds.end,
                            va.values.widened(),
                        )
                        &&& key64(final(self).metadata.bounds.start) <= key64(
                            old(self).metadata.bounds.start,
                        )
                        &&& key64(final(self).metadata.bounds.end) >= key64(
                            old(self).metadata.bounds.end,
                        )
                    },
                },
            },
    {
        match data {
            ArrayData::Other(name) => Err(SqError::NotFixedSizeList { data_type: name.clone() }),
            ArrayData::FixedSizeList(va) => match &va.values {
                VectorValues::Unsupported(name) => Err(
                    SqError::UnsupportedDataType { data_type: name.clone() },
                ),
                _ => match self.update_bounds(va) {
                    Ok(_) => Ok(()),
                    Err(e) => Err(e),
                },
            },
        }
    }

    /// The number of codes one vector's group holds.
    pub fn code_dim(&self) -> (r: usize)
        ensures
            r == self.metadata.dim,
    {
        self.metadata.dim
    }

    /// The name of the storage column that holds the code array.
    pub fn column(&self) -> (r: &'static str)
        ensures
            r@ == "__sq_code"@,
    {
        "__sq_code"
    }

    /// The well-known key the metadata blob is persisted under.
    pub fn metadata_key() -> (r: &'static str)
        ensures
            r@ == "lance:sq"@,
    {
        "lance:sq"
    }

    /// The tag of this quantizer kind.
    pub fn quantization_type() -> (r: QuantizationType)
        ensures
            r == QuantizationType::Scalar,
    {
        QuantizationType::Scalar
    }

    /// A deep copy of configuration and trained range, for persistence.
    pub fn metadata(&self) -> (r: ScalarQuantizationMetadata)
        ensures
            r == self.metadata,
    {
        self.metadata
    }

    /// Reconstructs a trained quantizer from persisted metadata, with no
    /// retraining; the metadata is trusted to come from a compatible build.
    pub fn from_metadata(metadata: &ScalarQuantizationMetadata) -> (r: Result<Quantizer, SqError>)
        requires
            !is_nan64(metadata.bounds.start),
            !is_nan64(metadata.bounds.end),
        ensures
            r == Ok::<Quantizer, SqError>(
                Quantizer::Scalar(ScalarQuantizer { metadata: *metadata }),
            ),
            (match r {
                Ok(Quantizer::Scalar(q)) => q.wf(),
                _ => false,
            }),
    {
        Ok(Quantizer::Scalar(ScalarQuantizer { metadata: *metadata }))
    }

    /// Reinterprets a generic quantizer as a scalar one; any other variant
    /// is a typed mismatch.
    pub fn try_from(value: Quantizer) -> (r: Result<ScalarQuantizer, SqError>)
        ensures
            match value {
                Quantizer::Scalar(q) => r == Ok::<ScalarQuantizer, SqError>(q),
                _ => r == Err::<ScalarQuantizer, SqError>(SqError::NotScalarQuantizer),
            },
    {
        match value {
            Quantizer::Scalar(sq) => Ok(sq),
            _ => Err(SqError::NotScalarQuantizer),
        }
    }

    /// The schema descriptor of the code column: a nullable fixed-width list
    /// of `code_dim` nullable unsigned 8-bit items.
    pub fn field(&self) -> (r: SqCodeField)
        ensures
            r == (SqCodeField { dim: self.metadata.dim, nullable: true, item_nullable: true }),
    {
        SqCodeField { dim: self.metadata.dim, nullable: true, item_nullable: true }
    }
}

/// Metadata round trip: rebuilding a quantizer from its exported metadata
/// yields the very same quantizer, so every contract above — in particular
/// `transform_ok`, which depends only on the metadata — pins the rebuilt
/// quantizer to identical quantization outcomes on every input.
pub proof fn lemma_metadata_round_trip(q: ScalarQuantizer)
    ensures
        (ScalarQuantizer { metadata: q.metadata }) == q,
        forall|va: VectorArray, r: Result<SqTransform, SqError>|
            #[trigger] transform_ok((ScalarQuantizer { metadata: q.metadata }).metadata.bounds, va, r)
                == transform_ok(q.metadata.bounds, va, r),
{
}

} // verus!

