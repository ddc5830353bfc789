use scalar_quantizer::codes::{finish_transform, ScaleJob};
use scalar_quantizer::quantizer::{
    ArrayData, Bounds, QuantizationType, Quantizer, ScalarQuantizer, SqError, SqTransform,
    VectorArray, VectorValues,
};

fn f64_batch(dim: usize, vals: &[f64]) -> ArrayData {
    ArrayData::FixedSizeList(VectorArray {
        dim,
        values: VectorValues::Float64(vals.iter().map(|v| v.to_bits()).collect()),
    })
}

fn f32_batch(dim: usize, vals: &[f32]) -> ArrayData {
    ArrayData::FixedSizeList(VectorArray {
        dim,
        values: VectorValues::Float32(vals.iter().map(|v| v.to_bits()).collect()),
    })
}

fn f16_batch(dim: usize, vals: &[half::f16]) -> ArrayData {
    ArrayData::FixedSizeList(VectorArray {
        dim,
        values: VectorValues::Float16(vals.iter().map(|v| v.to_bits()).collect()),
    })
}

/// The shell's double-precision step: the affine map and round, per element.
fn run_scale(job: &ScaleJob) -> Vec<u64> {
    let start = f64::from_bits(job.start);
    let end = f64::from_bits(job.end);
    let range = end - start;
    job.values
        .iter()
        .map(|b| (((f64::from_bits(*b) - start) * 255.0 / range).round()).to_bits())
        .collect()
}

fn quantize_codes(sq: &ScalarQuantizer, data: &ArrayData) -> Result<Vec<u8>, SqError> {
    match sq.quantize(data)? {
        SqTransform::Codes(cb) => Ok(cb.codes),
        SqTransform::Scale(job) => {
            let scaled = run_scale(&job);
            Ok(finish_transform(&job, &scaled).codes)
        }
    }
}

#[test]
fn test_f16_sq8() {
    let float_values: Vec<half::f16> =
        (0..16).map(|v| half::f16::from_f64(v as f64)).collect();
    let vectors = f16_batch(float_values.len(), &float_values);
    let mut sq = ScalarQuantizer::new(8, float_values.len());

    let va = match &vectors {
        ArrayData::FixedSizeList(va) => va,
        _ => unreachable!(),
    };
    sq.update_bounds(va).unwrap();
    assert_eq!(f64::from_bits(sq.bounds().start), float_values[0].to_f64());
    assert_eq!(
        f64::from_bits(sq.bounds().end),
        float_values.last().cloned().unwrap().to_f64()
    );

    let sq_values = quantize_codes(&sq, &vectors).unwrap();
    sq_values.iter().enumerate().for_each(|(i, v)| {
        assert_eq!(*v, (i * 17) as u8);
    });
}

#[test]
fn test_f32_sq8() {
    let float_values: Vec<f32> = (0..16).map(|v| v as f32).collect();
    let vectors = f32_batch(float_values.len(), &float_values);
    let mut sq = ScalarQuantizer::new(8, float_values.len());

    let va = match &vectors {
        ArrayData::FixedSizeList(va) => va,
        _ => unreachable!(),
    };
    sq.update_bounds(va).unwrap();
    assert_eq!(f64::from_bits(sq.bounds().start), float_values[0] as f64);
    assert_eq!(
        f64::from_bits(sq.bounds().end),
        *float_values.last().unwrap() as f64
    );

    let sq_values = quantize_codes(&sq, &vectors).unwrap();
    sq_values.iter().enumerate().for_each(|(i, v)| {
        assert_eq!(*v, (i * 17) as u8);
    });
}

#[test]
fn test_f64_sq8() {
    let float_values: Vec<f64> = (0..16).map(|v| v as f64).collect();
    let vectors = f64_batch(float_values.len(), &float_values);
    let mut sq = ScalarQuantizer::new(8, float_values.len());

    let va = match &vectors {
        ArrayData::FixedSizeList(va) => va,
        _ => unreachable!(),
    };
    sq.update_bounds(va).unwrap();
    assert_eq!(f64::from_bits(sq.bounds().start), float_values[0]);
    assert_eq!(
        f64::from_bits(sq.bounds().end),
        *float_values.last().unwrap()
    );

    let sq_values = quantize_codes(&sq, &vectors).unwrap();
    sq_values.iter().enumerate().for_each(|(i, v)| {
        assert_eq!(*v, (i * 17) as u8);
    });
}

#[test]
fn test_scale_to_u8_with_nan() {
    let values = [0.0, 1.0, 2.0, 3.0, f64::NAN];
    let sq = ScalarQuantizer::with_bounds(
        8,
        values.len(),
        Bounds { start: 0.0f64.to_bits(), end: 3.0f64.to_bits() },
    );
    let u8_values = quantize_codes(&sq, &f64_batch(values.len(), &values)).unwrap();
    assert_eq!(u8_values, vec![0, 85, 170, 255, 0]);
}

#[test]
fn training_is_order_independent() {
    let b1 = [3.0, -7.5, 0.25, 11.0];
    let b2 = [-2.0, 42.0, 5.5];
    let mut sq_a = ScalarQuantizer::new(8, 1);
    let mut sq_b = ScalarQuantizer::new(8, 1);
    for batch in [&b1[..], &b2[..]] {
        match &f64_batch(1, batch) {
            ArrayData::FixedSizeList(va) => sq_a.update_bounds(va).unwrap(),
            _ => unreachable!(),
        };
    }
    for batch in [&b2[..], &b1[..]] {
        match &f64_batch(1, batch) {
            ArrayData::FixedSizeList(va) => sq_b.update_bounds(va).unwrap(),
            _ => unreachable!(),
        };
    }
    assert_eq!(sq_a.bounds(), sq_b.bounds());
    assert_eq!(f64::from_bits(sq_a.bounds().start), -7.5);
    assert_eq!(f64::from_bits(sq_a.bounds().end), 42.0);
}

#[test]
fn retrain_only_widens() {
    let mut sq = ScalarQuantizer::new(8, 2);
    sq.retrain(&f64_batch(2, &[-1.0, 4.0])).unwrap();
    assert_eq!(f64::from_bits(sq.bounds().start), -1.0);
    assert_eq!(f64::from_bits(sq.bounds().end), 4.0);

    // a batch inside the current range changes nothing
    sq.retrain(&f64_batch(2, &[0.0, 1.0])).unwrap();
    assert_eq!(f64::from_bits(sq.bounds().start), -1.0);
    assert_eq!(f64::from_bits(sq.bounds().end), 4.0);

    // a wider batch only pushes the ends outward
    sq.retrain(&f64_batch(2, &[-3.0, 2.0])).unwrap();
    assert_eq!(f64::from_bits(sq.bounds().start), -3.0);
    assert_eq!(f64::from_bits(sq.bounds().end), 4.0);
}

#[test]
fn training_ignores_nan() {
    let mut sq = ScalarQuantizer::new(8, 1);
    sq.retrain(&f64_batch(1, &[f64::NAN, 1.0, f64::NAN, -2.0])).unwrap();
    assert_eq!(f64::from_bits(sq.bounds().start), -2.0);
    assert_eq!(f64::from_bits(sq.bounds().end), 1.0);
}

#[test]
fn empty_batch_leaves_range_unchanged() {
    let mut sq = ScalarQuantizer::with_bounds(
        8,
        4,
        Bounds { start: 1.0f64.to_bits(), end: 2.0f64.to_bits() },
    );
    sq.retrain(&f64_batch(4, &[])).unwrap();
    assert_eq!(f64::from_bits(sq.bounds().start), 1.0);
    assert_eq!(f64::from_bits(sq.bounds().end), 2.0);
}

#[test]
fn degenerate_range_maps_everything_to_zero() {
    let sq = ScalarQuantizer::with_bounds(
        8,
        4,
        Bounds { start: 2.5f64.to_bits(), end: 2.5f64.to_bits() },
    );
    let codes =
        quantize_codes(&sq, &f64_batch(4, &[1.0, 2.5, f64::NAN, 1.0e300])).unwrap();
    assert_eq!(codes, vec![0, 0, 0, 0]);
}

#[test]
fn untrained_sentinel_maps_everything_to_zero() {
    let sq = ScalarQuantizer::new(8, 2);
    let codes = quantize_codes(&sq, &f64_batch(2, &[-4.0, 9.0])).unwrap();
    assert_eq!(codes, vec![0, 0]);
}

#[test]
fn out_of_range_values_saturate() {
    let sq = ScalarQuantizer::with_bounds(
        8,
        4,
        Bounds { start: 0.0f64.to_bits(), end: 15.0f64.to_bits() },
    );
    let codes = quantize_codes(
        &sq,
        &f64_batch(4, &[-100.0, f64::NEG_INFINITY, 100.0, f64::INFINITY]),
    )
    .unwrap();
    assert_eq!(codes, vec![0, 0, 255, 255]);
}

#[test]
fn metadata_round_trip_quantizes_identically() {
    let mut sq = ScalarQuantizer::new(8, 3);
    sq.retrain(&f64_batch(3, &[-1.5, 0.0, 8.25])).unwrap();

    let metadata = sq.metadata();
    let rebuilt = match ScalarQuantizer::from_metadata(&metadata).unwrap() {
        Quantizer::Scalar(q) => q,
        _ => unreachable!(),
    };
    assert_eq!(rebuilt, sq);

    let data = f64_batch(3, &[-1.5, -0.25, 1.0, 4.0, 8.25, 100.0]);
    assert_eq!(
        quantize_codes(&sq, &data).unwrap(),
        quantize_codes(&rebuilt, &data).unwrap()
    );
}

#[test]
fn unsupported_element_type_fails_build_retrain_quantize() {
    let data = ArrayData::FixedSizeList(VectorArray {
        dim: 4,
        values: VectorValues::Unsupported(String::from("Int32")),
    });

    assert_eq!(
        ScalarQuantizer::build(&data, 8).unwrap_err(),
        SqError::UnsupportedDataType { data_type: String::from("Int32") }
    );

    let mut sq = ScalarQuantizer::new(8, 4);
    assert_eq!(
        sq.retrain(&data).unwrap_err(),
        SqError::UnsupportedDataType { data_type: String::from("Int32") }
    );
    assert_eq!(
        sq.quantize(&data).unwrap_err(),
        SqError::UnsupportedDataType { data_type: String::from("Int32") }
    );
    assert_eq!(
        sq.transform(&data).unwrap_err(),
        SqError::NotFloatVector { data_type: String::from("Int32") }
    );
}

#[test]
fn non_fixed_size_input_fails() {
    let data = ArrayData::Other(String::from("Utf8"));
    assert_eq!(
        ScalarQuantizer::build(&data, 8).unwrap_err(),
        SqError::NotFixedSizeList { data_type: String::from("Utf8") }
    );
    let mut sq = ScalarQuantizer::new(8, 4);
    assert_eq!(
        sq.retrain(&data).unwrap_err(),
        SqError::NotFixedSizeList { data_type: String::from("Utf8") }
    );
    assert_eq!(
        sq.quantize(&data).unwrap_err(),
        SqError::NotFixedSizeList { data_type: String::from("Utf8") }
    );
}

#[test]
fn invalid_shape_fails_quantize() {
    let sq = ScalarQuantizer::with_bounds(
        8,
        4,
        Bounds { start: 0.0f64.to_bits(), end: 1.0f64.to_bits() },
    );
    assert_eq!(
        sq.quantize(&f64_batch(4, &[0.0, 0.5, 1.0])).unwrap_err(),
        SqError::InvalidShape { dim: 4, len: 3 }
    );
    assert_eq!(
        sq.quantize(&f64_batch(0, &[0.0])).unwrap_err(),
        SqError::InvalidShape { dim: 0, len: 1 }
    );
}

#[test]
fn build_derives_dim_and_trains_once() {
    let data = f64_batch(2, &[3.0, -1.0, 7.0, 2.0]);
    let sq = ScalarQuantizer::build(&data, 8).unwrap();
    assert_eq!(sq.num_bits(), 8);
    assert_eq!(sq.code_dim(), 2);
    assert_eq!(f64::from_bits(sq.bounds().start), -1.0);
    assert_eq!(f64::from_bits(sq.bounds().end), 7.0);
}

#[test]
fn capability_surface() {
    let sq = ScalarQuantizer::new(8, 12);
    assert_eq!(sq.column(), "__sq_code");
    assert_eq!(ScalarQuantizer::metadata_key(), "lance:sq");
    assert_eq!(ScalarQuantizer::quantization_type(), QuantizationType::Scalar);
    assert!(!sq.use_residual());
    let field = sq.field();
    assert_eq!(field.dim, 12);
    assert!(field.nullable);
    assert!(field.item_nullable);
}

#[test]
fn try_from_rejects_other_variants() {
    let sq = ScalarQuantizer::new(8, 2);
    assert_eq!(
        ScalarQuantizer::try_from(Quantizer::Scalar(sq)).unwrap(),
        sq
    );
    assert_eq!(
        ScalarQuantizer::try_from(Quantizer::Flat).unwrap_err(),
        SqError::NotScalarQuantizer
    );
    assert_eq!(
        ScalarQuantizer::try_from(Quantizer::Product).unwrap_err(),
        SqError::NotScalarQuantizer
    );
}
