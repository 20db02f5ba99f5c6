use dc_array::array::dc_array_add_ptr;
use dc_array::array::dc_array_add_uint;
use dc_array::array::dc_array_duplicate;
use dc_array::array::dc_array_free_ptr;
use dc_array::array::dc_array_get_accuracy;
use dc_array::array::dc_array_get_chat_id;
use dc_array::array::dc_array_get_cnt;
use dc_array::array::dc_array_get_contact_id;
use dc_array::array::dc_array_get_id;
use dc_array::array::dc_array_get_latitude;
use dc_array::array::dc_array_get_longitude;
use dc_array::array::dc_array_get_marker;
use dc_array::array::dc_array_get_msg_id;
use dc_array::array::dc_array_get_ptr;
use dc_array::array::dc_array_get_raw;
use dc_array::array::dc_array_get_timestamp;
use dc_array::array::dc_array_get_uint;
use dc_array::array::dc_array_is_independent;
use dc_array::array::dc_array_new;
use dc_array::array::dc_array_new_typed;
use dc_array::array::dc_array_search_id;
use dc_array::array::dc_array_unref;
use dc_array::array::Variant;
use dc_array::location::Location;

fn sample_location() -> Location {
    Location {
        location_id: 77,
        latitude_bits: f64::to_bits(52.52),
        longitude_bits: f64::to_bits(13.405),
        accuracy_bits: f64::to_bits(1.5),
        timestamp: 1_234_567_890,
        chat_id: 10,
        contact_id: 20,
        msg_id: 30,
        independent: true,
        marker: Some(String::from("*")),
    }
}

#[test]
fn record_fields_read_back() {
    let mut arr = dc_array_new_typed(Variant::OwnedRecords, 2);
    dc_array_add_ptr(&mut arr, Some(sample_location()));
    assert_eq!(dc_array_get_cnt(&arr), 1);
    assert_eq!(dc_array_get_id(&arr, 0), 77);
    assert_eq!(f64::from_bits(dc_array_get_latitude(&arr, 0)), 52.52);
    assert_eq!(f64::from_bits(dc_array_get_longitude(&arr, 0)), 13.405);
    assert_eq!(f64::from_bits(dc_array_get_accuracy(&arr, 0)), 1.5);
    assert_eq!(dc_array_get_timestamp(&arr, 0), 1_234_567_890);
    assert_eq!(dc_array_get_chat_id(&arr, 0), 10);
    assert_eq!(dc_array_get_contact_id(&arr, 0), 20);
    assert_eq!(dc_array_get_msg_id(&arr, 0), 30);
    assert_eq!(dc_array_get_marker(&arr, 0), Some(String::from("*")));
    assert_eq!(dc_array_is_independent(&arr, 0), 1);
    let loc = dc_array_get_ptr(&arr, 0).expect("a record is present");
    assert_eq!(loc.location_id, 77);
    dc_array_unref(arr);
}

#[test]
fn absent_slot_reads_as_neutral() {
    let mut arr = dc_array_new_typed(Variant::OwnedRecords, 2);
    dc_array_add_ptr(&mut arr, None);
    dc_array_add_ptr(&mut arr, Some(sample_location()));
    assert_eq!(dc_array_get_cnt(&arr), 2);
    assert_eq!(dc_array_get_uint(&arr, 0), 0);
    assert_eq!(dc_array_get_id(&arr, 0), 0);
    assert_eq!(dc_array_get_latitude(&arr, 0), 0);
    assert_eq!(f64::from_bits(dc_array_get_latitude(&arr, 0)), 0.0);
    assert_eq!(dc_array_get_timestamp(&arr, 0), 0);
    assert_eq!(dc_array_get_marker(&arr, 0), None);
    assert_eq!(dc_array_is_independent(&arr, 0), 0);
    assert!(dc_array_get_ptr(&arr, 0).is_none());
    assert_eq!(dc_array_get_uint(&arr, 1), 1);
}

#[test]
fn wrong_variant_and_out_of_range_read_as_neutral() {
    let mut generic = dc_array_new(2);
    dc_array_add_uint(&mut generic, 5);
    assert_eq!(dc_array_get_latitude(&generic, 0), 0);
    assert_eq!(dc_array_get_marker(&generic, 0), None);
    assert!(dc_array_get_ptr(&generic, 0).is_none());
    assert_eq!(dc_array_is_independent(&generic, 0), 0);

    let mut records = dc_array_new_typed(Variant::OwnedRecords, 1);
    dc_array_add_ptr(&mut records, Some(sample_location()));
    assert_eq!(dc_array_get_id(&records, 1), 0);
    assert_eq!(dc_array_get_latitude(&records, 1), 0);
    assert!(dc_array_get_raw(&records).is_none());
}

#[test]
fn raw_word_appends_only_the_placeholder() {
    let mut arr = dc_array_new_typed(Variant::OwnedRecords, 2);
    dc_array_add_uint(&mut arr, 9);
    assert_eq!(dc_array_get_cnt(&arr), 0);
    dc_array_add_uint(&mut arr, 0);
    assert_eq!(dc_array_get_cnt(&arr), 1);
    assert!(dc_array_get_ptr(&arr, 0).is_none());
}

#[test]
fn free_ptr_releases_records_and_is_idempotent() {
    let mut arr = dc_array_new_typed(Variant::OwnedRecords, 2);
    dc_array_add_ptr(&mut arr, Some(sample_location()));
    dc_array_add_ptr(&mut arr, Some(sample_location()));
    dc_array_free_ptr(&mut arr);
    assert_eq!(dc_array_get_cnt(&arr), 2);
    assert!(dc_array_get_ptr(&arr, 0).is_none());
    assert!(dc_array_get_ptr(&arr, 1).is_none());
    assert_eq!(dc_array_get_uint(&arr, 0), 0);
    dc_array_free_ptr(&mut arr);
    assert!(dc_array_get_ptr(&arr, 0).is_none());
}

#[test]
fn search_on_records_scans_presence_words() {
    let mut arr = dc_array_new_typed(Variant::OwnedRecords, 3);
    dc_array_add_ptr(&mut arr, Some(sample_location()));
    dc_array_add_ptr(&mut arr, None);
    dc_array_add_ptr(&mut arr, Some(sample_location()));
    assert_eq!(dc_array_search_id(&arr, 0), (true, 1));
    assert_eq!(dc_array_search_id(&arr, 1), (true, 0));
    assert_eq!(dc_array_search_id(&arr, 2), (false, 0));
}

#[test]
fn duplicate_of_records_copies_the_word_view() {
    let mut arr = dc_array_new_typed(Variant::OwnedRecords, 3);
    dc_array_add_ptr(&mut arr, Some(sample_location()));
    dc_array_add_ptr(&mut arr, None);
    let dup = dc_array_duplicate(&arr);
    assert_eq!(dc_array_get_cnt(&dup), 2);
    assert_eq!(dc_array_get_uint(&dup, 0), 1);
    assert_eq!(dc_array_get_uint(&dup, 1), 0);
    assert!(dc_array_get_ptr(&dup, 0).is_none());
}

#[test]
fn marker_copy_is_fresh() {
    let mut arr = dc_array_new_typed(Variant::OwnedRecords, 1);
    let mut loc = sample_location();
    loc.marker = Some(String::from("flag"));
    dc_array_add_ptr(&mut arr, Some(loc));
    let mut copy = dc_array_get_marker(&arr, 0).expect("the record has a marker");
    copy.push_str(" changed");
    assert_eq!(dc_array_get_marker(&arr, 0), Some(String::from("flag")));
}
