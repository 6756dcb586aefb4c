//! The VICAR label resolver and pixel addressing engine: enumerations,
//! embedded-label resolution, dimension reordering, pixel decoding, and the
//! detached-label path.

use vicar::pvl::Pvl;
use vicar::{
    DataOrganization, DataType, PixelFormat, PixelValue, VicarError, VicarReader,
};

/// A byte buffer holding `label` padded with spaces to `pad` bytes, then
/// the raw `data` bytes.
fn embedded(label: &str, pad: usize, data: &[u8]) -> Vec<u8> {
    let mut bytes = label.as_bytes().to_vec();
    assert!(bytes.len() <= pad);
    while bytes.len() < pad {
        bytes.push(b' ');
    }
    bytes.extend_from_slice(data);
    bytes
}

#[test]
fn word_routes_to_half_and_long_to_full() {
    assert_eq!(PixelFormat::from_string("WORD").unwrap(), PixelFormat::from_string("HALF").unwrap());
    assert_eq!(PixelFormat::from_string("WORD").unwrap(), PixelFormat::Half);
    assert_eq!(PixelFormat::from_string("LONG").unwrap(), PixelFormat::from_string("FULL").unwrap());
    assert_eq!(PixelFormat::from_string("COMPLEX").unwrap(), PixelFormat::Comp);
    assert!(matches!(PixelFormat::from_string("FOO"), Err(VicarError::UnexpectedEnum(_))));
}

#[test]
fn enumerations_parse_case_insensitively() {
    assert_eq!(PixelFormat::from_string("byte").unwrap(), PixelFormat::Byte);
    assert_eq!(DataType::from_string("image").unwrap(), DataType::Image);
    assert_eq!(DataType::from_string("TABULAR").unwrap(), DataType::Tabular);
    assert!(matches!(DataType::from_string("PICTURE"), Err(VicarError::UnexpectedEnum(_))));
    assert_eq!(DataOrganization::from_string("bil").unwrap(), DataOrganization::Bil);
    assert!(matches!(DataOrganization::from_string("BIQ"), Err(VicarError::UnexpectedEnum(_))));
}

#[test]
fn bytes_per_sample_keeps_the_historical_widths() {
    assert_eq!(PixelFormat::Byte.bytes_per_sample(), 1);
    assert_eq!(PixelFormat::Half.bytes_per_sample(), 2);
    assert_eq!(PixelFormat::Word.bytes_per_sample(), 2);
    assert_eq!(PixelFormat::Full.bytes_per_sample(), 4);
    assert_eq!(PixelFormat::Long.bytes_per_sample(), 4);
    assert_eq!(PixelFormat::Real.bytes_per_sample(), 2);
    assert_eq!(PixelFormat::Doub.bytes_per_sample(), 2);
    assert_eq!(PixelFormat::Comp.bytes_per_sample(), 4);
    assert_eq!(PixelFormat::Complex.bytes_per_sample(), 4);
}

#[test]
fn dimensions_reorder_under_bil() {
    let label = "LBLSIZE=128 RECSIZE=128 DIM=3 N1=5 N2=10 N3=3 NLB=0 NBB=0 TYPE='IMAGE' FORMAT='BYTE' ORG='BIL'";
    let vr = VicarReader::new(embedded(label, 128, &[])).unwrap();
    assert_eq!(vr.lines, 3);
    assert_eq!(vr.samples, 5);
    assert_eq!(vr.bands, 10);
    assert_eq!(vr.org, DataOrganization::Bil);
}

#[test]
fn dimensions_reorder_under_bsq_and_bip() {
    let bsq = "LBLSIZE=128 RECSIZE=128 DIM=3 N1=5 N2=10 N3=3 NLB=0 NBB=0 TYPE='IMAGE' FORMAT='BYTE' ORG='BSQ'";
    let vr = VicarReader::new(embedded(bsq, 128, &[])).unwrap();
    assert_eq!((vr.lines, vr.samples, vr.bands), (10, 5, 3));
    let bip = "LBLSIZE=128 RECSIZE=128 DIM=3 N1=5 N2=10 N3=3 NLB=0 NBB=0 TYPE='IMAGE' FORMAT='BYTE' ORG='BIP'";
    let vr = VicarReader::new(embedded(bip, 128, &[])).unwrap();
    assert_eq!((vr.lines, vr.samples, vr.bands), (3, 10, 5));
}

#[test]
fn minimal_embedded_label_reads_byte_pixels_end_to_end() {
    // the enumeration tokens are bare flags here; quoted tokens are
    // exercised by the other labels
    let label = "LBLSIZE=100 RECSIZE=100 DIM=3 N1=4 N2=4 N3=1 NLB=0 NBB=0 TYPE=IMAGE FORMAT=BYTE ORG=BSQ";
    let data: Vec<u8> = (1..=16).map(|i| (i * 10) as u8).collect();
    let vr = VicarReader::new(embedded(label, 100, &data)).unwrap();
    assert_eq!(vr.label_size, 100);
    assert_eq!(vr.recsize, 100);
    assert_eq!(vr.dimensions, 3);
    assert_eq!(vr.data_start, 100);
    assert_eq!(vr.data_type, DataType::Image);
    assert_eq!(vr.format, PixelFormat::Byte);
    assert_eq!(vr.get_pixel_value(0, 0, 0).unwrap(), PixelValue::Byte(10));
    assert_eq!(vr.get_pixel_value(0, 1, 0).unwrap(), PixelValue::Byte(20));
    assert_eq!(vr.get_pixel_value(3, 3, 0).unwrap(), PixelValue::Byte(160));
    assert!(matches!(vr.get_pixel_value(4, 0, 0), Err(VicarError::General(_))));
}

#[test]
fn half_pixels_decode_signed_big_endian() {
    let label = "LBLSIZE=120 RECSIZE=120 DIM=3 N1=2 N2=1 N3=1 NLB=0 NBB=0 TYPE='IMAGE' FORMAT='HALF' ORG='BSQ'";
    let data = [0x01u8, 0x02, 0xFF, 0xFE];
    let vr = VicarReader::new(embedded(label, 120, &data)).unwrap();
    assert_eq!(vr.get_pixel_value(0, 0, 0).unwrap(), PixelValue::Int16(258));
    assert_eq!(vr.get_pixel_value(0, 1, 0).unwrap(), PixelValue::Int16(-2));
}

#[test]
fn full_pixels_decode_signed_big_endian() {
    let label = "LBLSIZE=120 RECSIZE=120 DIM=3 N1=2 N2=1 N3=1 NLB=0 NBB=0 TYPE='IMAGE' FORMAT='FULL' ORG='BSQ'";
    let data = [0x00u8, 0x01, 0x02, 0x03, 0xFF, 0xFF, 0xFF, 0xFB];
    let vr = VicarReader::new(embedded(label, 120, &data)).unwrap();
    assert_eq!(vr.get_pixel_value(0, 0, 0).unwrap(), PixelValue::Int32(0x010203));
    assert_eq!(vr.get_pixel_value(0, 1, 0).unwrap(), PixelValue::Int32(-5));
}

#[test]
fn real_pixels_hand_back_float_bits() {
    let label = "LBLSIZE=120 RECSIZE=120 DIM=3 N1=1 N2=1 N3=1 NLB=0 NBB=0 TYPE='IMAGE' FORMAT='REAL' ORG='BSQ'";
    let data = 1.5f32.to_be_bytes();
    let vr = VicarReader::new(embedded(label, 120, &data)).unwrap();
    match vr.get_pixel_value(0, 0, 0).unwrap() {
        PixelValue::RealBits(bits) => assert_eq!(f32::from_bits(bits), 1.5),
        other => panic!("expected float bits, got {:?}", other),
    }
}

#[test]
fn doub_pixels_decode_as_big_endian_integers() {
    let label = "LBLSIZE=120 RECSIZE=120 DIM=3 N1=1 N2=1 N3=1 NLB=0 NBB=0 TYPE='IMAGE' FORMAT='DOUB' ORG='BSQ'";
    let data = [0xFFu8, 0xFF, 0xFF, 0xFF, 0xFF, 0xFF, 0xFF, 0xF7];
    let vr = VicarReader::new(embedded(label, 120, &data)).unwrap();
    assert_eq!(vr.get_pixel_value(0, 0, 0).unwrap(), PixelValue::Int64(-9));
}

#[test]
fn record_prefix_and_header_shift_the_data_start() {
    // NLB=1 adds one record of binary header; NBB=2 skips two bytes before
    // each record and shifts the pixel start
    let label = "LBLSIZE=100 RECSIZE=10 DIM=3 N1=2 N2=2 N3=1 NLB=1 NBB=2 TYPE='IMAGE' FORMAT='BYTE' ORG='BSQ'";
    let mut data = vec![0u8; 10];
    data.extend_from_slice(&[0, 0, 1, 2, 3, 4, 5, 6]);
    let vr = VicarReader::new(embedded(label, 100, &data)).unwrap();
    assert_eq!(vr.data_start, 100 + 10 + 2);
    assert_eq!(vr.binary_bytes_header, 1);
    assert_eq!(vr.binary_bytes_before_record, 2);
    // offset of (1, 0, 0) adds one record prefix of NBB bytes
    assert_eq!(vr.get_pixel_value(0, 0, 0).unwrap(), PixelValue::Byte(1));
    assert_eq!(vr.get_pixel_value(0, 1, 0).unwrap(), PixelValue::Byte(2));
    assert_eq!(vr.get_pixel_value(1, 0, 0).unwrap(), PixelValue::Byte(5));
}

#[test]
fn missing_and_malformed_fields_fail_with_their_kinds() {
    let missing = "LBLSIZE=100 RECSIZE=100 TYPE='IMAGE'";
    assert!(matches!(VicarReader::new(embedded(missing, 100, &[])), Err(VicarError::Eof)));
    let flagged = "LBLSIZE=100 RECSIZE=ABC DIM=3 N1=1 N2=1 N3=1 NLB=0 NBB=0 TYPE='IMAGE' FORMAT='BYTE' ORG='BSQ'";
    assert!(matches!(VicarReader::new(embedded(flagged, 100, &[])), Err(VicarError::InvalidType)));
    let huge = "LBLSIZE=120 RECSIZE=99999999999999999999 DIM=3 N1=1 N2=1 N3=1 NLB=0 NBB=0 TYPE='IMAGE' FORMAT='BYTE' ORG='BSQ'";
    assert!(matches!(
        VicarReader::new(embedded(huge, 120, &[])),
        Err(VicarError::ValueTypeParseError)
    ));
    let badfmt = "LBLSIZE=100 RECSIZE=100 DIM=3 N1=1 N2=1 N3=1 NLB=0 NBB=0 TYPE='IMAGE' FORMAT='FOO' ORG='BSQ'";
    assert!(matches!(
        VicarReader::new(embedded(badfmt, 100, &[])),
        Err(VicarError::UnexpectedEnum(_))
    ));
    // a numeric token is neither a string nor a flag
    let numeric = "LBLSIZE=100 RECSIZE=100 DIM=3 N1=1 N2=1 N3=1 NLB=0 NBB=0 TYPE=123 FORMAT='BYTE' ORG='BSQ'";
    assert!(matches!(
        VicarReader::new(embedded(numeric, 100, &[])),
        Err(VicarError::InvalidType)
    ));
    assert!(matches!(VicarReader::new(Vec::new()), Err(VicarError::Eof)));
}

#[test]
fn label_queries_see_the_raw_fields() {
    let label = "LBLSIZE=100 RECSIZE=100 DIM=3 N1=4 N2=4 N3=1 NLB=0 NBB=0 TYPE='IMAGE' FORMAT='BYTE' ORG='BSQ'";
    let vr = VicarReader::new(embedded(label, 100, &[0u8; 16])).unwrap();
    assert!(vr.has_internal_label());
    assert_eq!(vr.scan_for_property("LBLSIZE").unwrap(), 0);
    assert_eq!(vr.extract_property_raw("RECSIZE").unwrap(), "RECSIZE=100");
    let kvp = vr.get_property("LBLSIZE").unwrap();
    assert_eq!(kvp.key, "LBLSIZE");
    assert_eq!(kvp.value.parse_usize().unwrap(), 100);
    assert!(!vr.has_property("MISSING"));
    assert!(matches!(vr.get_property("MISSING"), Err(VicarError::Eof)));
    assert_eq!(vr.char_at(0).unwrap(), 'L');
    assert!(!vr.is_index_at_eof(0));
    assert!(vr.is_index_at_eof(1000));
}

#[test]
fn detached_label_resolves_dimensions_and_file_name() {
    let text = "OBJECT = IMAGE\nLINES = 4\nLINE_SAMPLES = 3\nBANDS = 1\nEND_OBJECT\n^IMAGE = (\"X.IMG\")\nEND padding\n";
    let pvl = Pvl::from_string(text).unwrap();
    assert_eq!(VicarReader::detached_image_file_name(&pvl).unwrap(), "X.IMG");
    let data: Vec<u8> = (0..12).collect();
    let vr = VicarReader::new_from_detached_label(&pvl, data).unwrap();
    assert_eq!((vr.lines, vr.samples, vr.bands), (4, 3, 1));
    assert_eq!(vr.format, PixelFormat::Byte);
    assert_eq!(vr.org, DataOrganization::Bsq);
    assert_eq!(vr.data_start, 0);
    assert_eq!(vr.get_pixel_value(1, 2, 0).unwrap(), PixelValue::Byte(5));
}

#[test]
fn detached_label_defaults_missing_dimensions_to_zero() {
    let text = "OBJECT = IMAGE\nLINES = 4\nEND_OBJECT\n^IMAGE = (\"X.IMG\")\nEND padding\n";
    let pvl = Pvl::from_string(text).unwrap();
    let vr = VicarReader::new_from_detached_label(&pvl, Vec::new()).unwrap();
    assert_eq!((vr.lines, vr.samples, vr.bands), (4, 0, 0));
}

#[test]
fn detached_label_requires_the_image_object_and_pointer() {
    let no_object = Pvl::from_string("A = 1\nEND padding\n").unwrap();
    assert!(matches!(
        VicarReader::new_from_detached_label(&no_object, Vec::new()),
        Err(VicarError::PropertyNotFound(_))
    ));
    let no_pointer =
        Pvl::from_string("OBJECT = IMAGE\nLINES = 4\nEND_OBJECT\nEND padding\n").unwrap();
    assert!(matches!(
        VicarReader::new_from_detached_label(&no_pointer, Vec::new()),
        Err(VicarError::PropertyNotFound(_))
    ));
}
