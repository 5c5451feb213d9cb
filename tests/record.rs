use more_ranges::record::Field;
use more_ranges::record::RecordError;
use more_ranges::record::RecordFields;
use more_ranges::RangeFromExclusive;
use more_ranges::RangeFromExclusiveToExclusive;
use more_ranges::RangeFromExclusiveToInclusive;

#[test]
fn field_names_are_recognised() {
    assert_eq!(Field::from_name("start", false), Some(Field::Start));
    assert_eq!(Field::from_name("end", false), None);
    assert_eq!(Field::from_name("start", true), Some(Field::Start));
    assert_eq!(Field::from_name("end", true), Some(Field::End));
    assert_eq!(Field::from_name("unexpected", true), None);
    assert_eq!(Field::from_name("star", true), None);
    assert_eq!(Field::from_name("", true), None);
    assert_eq!(Field::Start.name(), "start");
    assert_eq!(Field::End.name(), "end");
}

#[test]
fn record_round_trip_gives_back_the_range() {
    let mut fields = RecordFields::new();
    assert_eq!(fields.accept(Field::Start), Ok(()));
    fields.store(Field::Start, 1u8);
    assert_eq!(fields.into_range_from_exclusive(), Ok(RangeFromExclusive { start: 1u8 }));

    let mut fields = RecordFields::new();
    fields.store(Field::End, 3u8);
    fields.store(Field::Start, 1u8);
    assert_eq!(
        fields.into_range_from_exclusive_to_inclusive(),
        Ok(RangeFromExclusiveToInclusive { start: 1u8, end: 3 })
    );

    let mut fields = RecordFields::new();
    fields.store(Field::Start, 1u8);
    fields.store(Field::End, 3u8);
    assert_eq!(
        fields.into_range_from_exclusive_to_exclusive(),
        Ok(RangeFromExclusiveToExclusive { start: 1u8, end: 3 })
    );
}

#[test]
fn record_duplicate_field_is_named() {
    let mut fields = RecordFields::new();
    fields.store(Field::Start, 1u8);
    assert_eq!(fields.accept(Field::Start), Err(RecordError::Duplicate(Field::Start)));
    assert_eq!(fields.accept(Field::End), Ok(()));
    fields.store(Field::End, 2u8);
    assert_eq!(fields.accept(Field::End), Err(RecordError::Duplicate(Field::End)));
}

#[test]
fn record_missing_field_is_named() {
    let fields: RecordFields<u8> = RecordFields::new();
    assert_eq!(
        fields.into_range_from_exclusive(),
        Err(RecordError::Missing(Field::Start))
    );

    let mut fields = RecordFields::new();
    fields.store(Field::End, 2u8);
    assert_eq!(
        fields.into_range_from_exclusive_to_inclusive(),
        Err(RecordError::Missing(Field::Start))
    );

    let mut fields = RecordFields::new();
    fields.store(Field::Start, 2u8);
    assert_eq!(
        fields.into_range_from_exclusive_to_exclusive(),
        Err(RecordError::Missing(Field::End))
    );

    let fields: RecordFields<u8> = RecordFields::new();
    assert_eq!(
        fields.into_range_from_exclusive_to_exclusive(),
        Err(RecordError::Missing(Field::Start))
    );
}

/// Replays the entries of a record, as a decoder meets them, through the
/// record rules; an unknown field name is reported as `Err(None)`.
fn read_record(
    entries: &[(&str, u8)],
    two_sided: bool,
) -> Result<RecordFields<u8>, Option<RecordError>> {
    let mut fields = RecordFields::new();
    for (name, value) in entries {
        let field = match Field::from_name(name, two_sided) {
            Some(field) => field,
            None => return Err(None),
        };
        fields.accept(field).map_err(Some)?;
        fields.store(field, *value);
    }
    Ok(fields)
}

#[test]
fn range_from_exclusive_deserialize_duplicate_field() {
    let outcome = read_record(&[("start", 1), ("start", 2)], false);
    assert_eq!(outcome.err(), Some(Some(RecordError::Duplicate(Field::Start))));
    assert_eq!(Field::Start.name(), "start");
}

#[test]
fn range_from_exclusive_deserialize_missing_start_field() {
    let fields = read_record(&[], false).unwrap();
    assert_eq!(fields.into_range_from_exclusive(), Err(RecordError::Missing(Field::Start)));
    assert_eq!(Field::Start.name(), "start");
}

#[test]
fn range_from_exclusive_deserialize_unexpected_field() {
    assert_eq!(read_record(&[("unexpected", 1)], false).err(), Some(None));
}

#[test]
fn range_from_exclusive_to_inclusive_deserialize_duplicate_start_field() {
    let outcome = read_record(&[("start", 1), ("start", 2)], true);
    assert_eq!(outcome.err(), Some(Some(RecordError::Duplicate(Field::Start))));
    assert_eq!(Field::Start.name(), "start");
}

#[test]
fn range_from_exclusive_to_inclusive_deserialize_duplicate_end_field() {
    let outcome = read_record(&[("start", 1), ("end", 3), ("end", 2)], true);
    assert_eq!(outcome.err(), Some(Some(RecordError::Duplicate(Field::End))));
    assert_eq!(Field::End.name(), "end");
}

#[test]
fn range_from_exclusive_to_inclusive_deserialize_missing_start_field() {
    let fields = read_record(&[("end", 3)], true).unwrap();
    assert_eq!(fields.into_range_from_exclusive_to_inclusive(), Err(RecordError::Missing(Field::Start)));
    assert_eq!(Field::Start.name(), "start");
}

#[test]
fn range_from_exclusive_to_inclusive_deserialize_missing_end_field() {
    let fields = read_record(&[("start", 1)], true).unwrap();
    assert_eq!(fields.into_range_from_exclusive_to_inclusive(), Err(RecordError::Missing(Field::End)));
    assert_eq!(Field::End.name(), "end");
}

#[test]
fn range_from_exclusive_to_inclusive_deserialize_unexpected_field() {
    assert_eq!(read_record(&[("unexpected", 1)], true).err(), Some(None));
}

#[test]
fn range_from_exclusive_to_exclusive_deserialize_duplicate_start_field() {
    let outcome = read_record(&[("start", 1), ("start", 2)], true);
    assert_eq!(outcome.err(), Some(Some(RecordError::Duplicate(Field::Start))));
    assert_eq!(Field::Start.name(), "start");
}

#[test]
fn range_from_exclusive_to_exclusive_deserialize_duplicate_end_field() {
    let outcome = read_record(&[("start", 1), ("end", 3), ("end", 2)], true);
    assert_eq!(outcome.err(), Some(Some(RecordError::Duplicate(Field::End))));
    assert_eq!(Field::End.name(), "end");
}

#[test]
fn range_from_exclusive_to_exclusive_deserialize_missing_start_field() {
    let fields = read_record(&[("end", 3)], true).unwrap();
    assert_eq!(fields.into_range_from_exclusive_to_exclusive(), Err(RecordError::Missing(Field::Start)));
    assert_eq!(Field::Start.name(), "start");
}

#[test]
fn range_from_exclusive_to_exclusive_deserialize_missing_end_field() {
    let fields = read_record(&[("start", 1)], true).unwrap();
    assert_eq!(fields.into_range_from_exclusive_to_exclusive(), Err(RecordError::Missing(Field::End)));
    assert_eq!(Field::End.name(), "end");
}

#[test]
fn range_from_exclusive_to_exclusive_deserialize_unexpected_field() {
    assert_eq!(read_record(&[("unexpected", 1)], true).err(), Some(None));
}
