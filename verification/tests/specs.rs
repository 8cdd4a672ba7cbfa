use media_soxr::DataType;
use media_soxr::Error;
use media_soxr::IOSpec;
use media_soxr::QualityFlags;
use media_soxr::QualityRecipe;
use media_soxr::QualitySpec;
use media_soxr::RuntimeSpec;

#[test]
fn data_type_classification() {
    assert!(DataType::Float32I.is_packed());
    assert!(DataType::Float64I.is_packed());
    assert!(DataType::Int32I.is_packed());
    assert!(DataType::Int16I.is_packed());
    assert!(!DataType::Float32I.is_planar());

    assert!(DataType::Float32S.is_planar());
    assert!(DataType::Float64S.is_planar());
    assert!(DataType::Int32S.is_planar());
    assert!(DataType::Int16S.is_planar());
    assert!(!DataType::Int16S.is_packed());

    assert!(!DataType::Dynamic.is_packed());
    assert!(!DataType::Dynamic.is_planar());
}

#[test]
fn iospec_rejects_dynamic_sentinel() {
    assert!(IOSpec::new(DataType::Dynamic, DataType::Int16I).is_err());
    assert!(IOSpec::new(DataType::Float32S, DataType::Dynamic).is_err());
    assert!(IOSpec::new(DataType::Dynamic, DataType::Dynamic).is_err());

    let err = IOSpec::new(DataType::Dynamic, DataType::Int16I).unwrap_err();
    assert_eq!(err.as_str(), "unsupported data type");

    let spec = IOSpec::new(DataType::Float32S, DataType::Int16I).unwrap();
    assert_eq!(spec.input_type(), DataType::Float32S);
    assert_eq!(spec.output_type(), DataType::Int16I);
}

#[test]
fn quality_spec_accepts_all_valid_combinations() {
    let recipes = [
        QualityRecipe::Quick,
        QualityRecipe::Low,
        QualityRecipe::Medium,
        QualityRecipe::High,
        QualityRecipe::VeryHigh,
    ];
    let flag_sets = [
        QualityFlags::empty(),
        QualityFlags::rolloff_small(),
        QualityFlags::rolloff_medium(),
        QualityFlags::rolloff_none(),
        QualityFlags::hi_prec_clock(),
        QualityFlags::double_precision(),
        QualityFlags::variable_rate(),
        QualityFlags::rolloff_medium()
            .union(QualityFlags::hi_prec_clock())
            .union(QualityFlags::double_precision())
            .union(QualityFlags::variable_rate()),
    ];
    for recipe in recipes {
        for flags in flag_sets {
            assert!(QualitySpec::new(recipe, flags).is_ok());
        }
    }
}

#[test]
fn quality_spec_rejects_invalid_combinations() {
    // Medium and none rolloff together form no rolloff setting.
    let contradictory = QualityFlags::rolloff_medium().union(QualityFlags::rolloff_none());
    let err = QualitySpec::new(QualityRecipe::Medium, contradictory).unwrap_err();
    assert_eq!(err.as_str(), "invalid quality flag combination");

    // Unknown bits are rejected.
    let unknown = QualityFlags::from_bits(1 << 6);
    assert!(QualitySpec::new(QualityRecipe::Quick, unknown).is_err());
}

#[test]
fn quality_flags_bit_operations() {
    assert_eq!(QualityFlags::empty().bits(), 0);
    assert_eq!(QualityFlags::rolloff_small().bits(), 0);
    assert_eq!(QualityFlags::rolloff_medium().bits(), 1);
    assert_eq!(QualityFlags::rolloff_none().bits(), 2);
    assert_eq!(QualityFlags::hi_prec_clock().bits(), 8);
    assert_eq!(QualityFlags::double_precision().bits(), 16);
    assert_eq!(QualityFlags::variable_rate().bits(), 32);

    let both = QualityFlags::hi_prec_clock().union(QualityFlags::double_precision());
    assert_eq!(both.bits(), 24);
    assert!(both.contains(QualityFlags::hi_prec_clock()));
    assert!(!both.contains(QualityFlags::variable_rate()));
    assert_eq!(QualityFlags::from_bits(24), both);
}

#[test]
fn runtime_spec_accepts_any_thread_count() {
    let _ = RuntimeSpec::new(0);
    let _ = RuntimeSpec::new(1);
    let _ = RuntimeSpec::new(4096);
}

#[test]
fn error_carries_its_message() {
    let validation = Error::with_str("a validation message");
    assert_eq!(validation.as_str(), "a validation message");

    let engine = Error::new("an engine message".to_owned());
    assert_eq!(engine.as_str(), "an engine message");
}
