use camera_opencv::camera::{
    frame_from_capture, publish_frame, CameraOpencv, CameraOpencvCore, CameraOpencvPlugin,
    ALPHA_CHANNEL, INITIAL_CHANNELS, INITIAL_COLS, INITIAL_ROWS, OPAQUE,
};
use camera_opencv::config::{
    capture_setup, config_error, config_fits_parser, number_to_i32, read_config_index,
    setup_from_reading, try_capture_setup, CaptureSetup,
    CONFIG_ERROR_CODE, MAX_FRACTION_DIGITS,
};
use camera_opencv::core_trait::CoreTrait;
use camera_opencv::error::CvError;
use camera_opencv::image::{frame_extent, frame_image, ImageExtent};

#[test]
fn log_prefix_of_core_camera() {
    let core: CameraOpencvCore<u8> = CameraOpencvCore::new("test_camera", Ok(7u8));
    assert_eq!(core.name(), "test_camera");
    assert_eq!(core.type_label(), "CameraOpencvCore");
    assert_eq!(core.log_prefix("read_into"), "CameraOpencvCore-test_camera-read_into: ");
}

#[test]
fn log_prefix_of_camera() {
    let camera = CameraOpencv::new("cam0");
    assert_eq!(camera.name(), "cam0");
    assert_eq!(camera.type_label(), "CameraOpencv");
    assert_eq!(camera.log_prefix("new"), "CameraOpencv-cam0-new: ");
    assert_eq!(camera.log_prefix(""), "CameraOpencv-cam0-: ");
}

#[test]
fn plugin_is_a_unit_value() {
    let _plugin = CameraOpencvPlugin;
}

#[test]
fn capture_hands_out_the_opened_device() {
    let core: CameraOpencvCore<u32> = CameraOpencvCore::new("c", Ok(42u32));
    match core.capture() {
        Ok(device) => assert_eq!(*device, 42),
        Err(_) => panic!("expected the device"),
    }
}

#[test]
fn capture_reports_a_copy_of_the_stored_error() {
    let err = CvError::new(-215, String::from("cannot open camera"));
    let core: CameraOpencvCore<u32> = CameraOpencvCore::new("c", Err(err));
    for _ in 0..2 {
        match core.capture() {
            Ok(_) => panic!("expected an error"),
            Err(e) => {
                assert_eq!(e.code, -215);
                assert_eq!(e.message, "cannot open camera");
            }
        }
    }
}

#[test]
fn error_duplicate_keeps_code_and_message() {
    let err = CvError::new(-9001, String::from("m"));
    let copy = err.duplicate();
    assert_eq!(copy.code, -9001);
    assert_eq!(copy.message, "m");
}

#[test]
fn config_with_index_opens_that_device() {
    assert!(matches!(capture_setup(r#"{"index":0}"#), CaptureSetup::Open(0)));
    assert!(matches!(capture_setup(r#"{ "index" : 3, "fps": 24 }"#), CaptureSetup::Open(3)));
    assert!(matches!(capture_setup(r#"{"index":-1}"#), CaptureSetup::Open(-1)));
}

#[test]
fn config_without_integer_index_is_missing_index() {
    assert!(try_capture_setup(r#"{"other":1}"#).is_none());
    assert!(try_capture_setup(r#"{"index":"0"}"#).is_none());
    assert!(try_capture_setup(r#"{"index":3000000000}"#).is_none());
    assert!(try_capture_setup("[0]").is_none());
    assert!(try_capture_setup("null").is_none());
}

#[test]
fn empty_object_config_has_missing_index() {
    assert!(try_capture_setup("{}").is_none());
    assert!(try_capture_setup(r#"{"index":1.5}"#).is_none());
    assert!(try_capture_setup(r#"{"index":1.0}"#).is_none());
    assert!(try_capture_setup(r#"{"index":null}"#).is_none());
}

#[test]
fn config_index_reads_as_json_reads_it() {
    assert!(matches!(capture_setup(r#"{"index":1e0}"#), CaptureSetup::Open(1)));
    assert!(matches!(capture_setup(r#"{"index":2147483647}"#), CaptureSetup::Open(2147483647)));
    assert!(matches!(capture_setup(r#"{"index":-2147483648}"#), CaptureSetup::Open(-2147483648)));
    assert!(try_capture_setup(r#"{"index":2147483648}"#).is_none());
    assert!(matches!(
        capture_setup(r#"{"index":18446744073709551615}"#),
        CaptureSetup::Open(-1)
    ));
    assert!(try_capture_setup(r#"{"index":-9223372036854775808}"#).is_none());
}

#[test]
fn number_to_i32_cases() {
    assert_eq!(number_to_i32((true, 7, 0)), Some(7));
    assert_eq!(number_to_i32((false, 7, 0)), Some(-7));
    assert_eq!(number_to_i32((true, 7, 1)), None);
    assert_eq!(number_to_i32((true, 70, -1)), None);
    assert_eq!(number_to_i32((true, 2147483648, 0)), None);
    assert_eq!(number_to_i32((false, 2147483648, 0)), Some(i32::MIN));
    assert_eq!(number_to_i32((false, 9223372036854775808, 0)), None);
    assert_eq!(number_to_i32((true, u64::MAX, 0)), Some(-1));
}

#[test]
fn config_fits_parser_bounds_fraction_digits() {
    assert!(config_fits_parser(r#"{"index":0}"#));
    assert!(config_fits_parser("0.5"));
    let zeros = "0".repeat(MAX_FRACTION_DIGITS);
    let at_limit = format!("{{\"index\":0.{}}}", zeros);
    assert!(config_fits_parser(&at_limit));
    assert!(try_capture_setup(&at_limit).is_none());
    let negative_at_limit = format!("{{\"index\":-0.{}}}", zeros);
    assert!(config_fits_parser(&negative_at_limit));
    assert!(try_capture_setup(&negative_at_limit).is_none());
    let too_long = format!("{{\"index\":0.{}0}}", zeros);
    assert!(!config_fits_parser(&too_long));
    let negative_too_long = format!("[-0.{}0]", zeros);
    assert!(!config_fits_parser(&negative_too_long));
}

#[test]
fn long_fractions_the_parser_reads_are_accepted() {
    let many = "0".repeat(MAX_FRACTION_DIGITS * 2);
    let in_string = format!("{{\"index\":0,\"note\":\".{}\"}}", many);
    assert!(config_fits_parser(&in_string));
    assert!(matches!(try_capture_setup(&in_string), Some(CaptureSetup::Open(0))));
    let unterminated = format!("[\".{}\"", many);
    assert!(config_fits_parser(&unterminated));
    assert!(matches!(try_capture_setup(&unterminated), Some(CaptureSetup::Rejected(_))));
    let escaped_quote = format!("[\"\\\".{}\"]", many);
    assert!(config_fits_parser(&escaped_quote));
    assert!(try_capture_setup(&escaped_quote).is_none());
    let one_point = format!("{{\"index\":1.{}}}", many);
    assert!(config_fits_parser(&one_point));
    assert!(try_capture_setup(&one_point).is_none());
    let small_mantissa = format!("{{\"index\":0.1{}}}", many);
    assert!(config_fits_parser(&small_mantissa));
    assert!(try_capture_setup(&small_mantissa).is_none());
    let word = format!("{{\"index\":10.{}}}", many);
    assert!(config_fits_parser(&word));
    assert!(try_capture_setup(&word).is_none());
}

#[test]
fn config_that_is_not_json_is_rejected() {
    match capture_setup("") {
        CaptureSetup::Rejected(e) => {
            assert_eq!(e.code, CONFIG_ERROR_CODE);
            assert_eq!(e.code, -9001);
            assert_eq!(e.message, "config Error: Unexpected end of JSON");
        }
        _ => panic!("expected a rejection"),
    }
    match capture_setup("{index:0}") {
        CaptureSetup::Rejected(e) => {
            assert_eq!(e.code, -9001);
            assert!(e.message.starts_with("config Error: "));
            assert!(e.message.len() > "config Error: ".len());
        }
        _ => panic!("expected a rejection"),
    }
}

#[test]
fn config_error_formats_message() {
    let e = config_error("Unexpected end of JSON");
    assert_eq!(e.code, -9001);
    assert_eq!(e.message, "config Error: Unexpected end of JSON");
    let e = config_error("");
    assert_eq!(e.message, "config Error: ");
}

#[test]
fn setup_from_reading_cases() {
    assert!(matches!(setup_from_reading(Ok(Some(5))), Some(CaptureSetup::Open(5))));
    assert!(setup_from_reading(Ok(None)).is_none());
    match setup_from_reading(Err(String::from("Unexpected end of JSON"))) {
        Some(CaptureSetup::Rejected(e)) => {
            assert_eq!(e.code, -9001);
            assert_eq!(e.message, "config Error: Unexpected end of JSON");
        }
        _ => panic!("expected a rejection"),
    }
}

#[test]
fn read_config_index_cases() {
    assert_eq!(read_config_index(r#"{"index":4}"#), Ok(Some(4)));
    assert_eq!(read_config_index("{}"), Ok(None));
    assert_eq!(read_config_index(r#"{"index":"4"}"#), Ok(None));
    assert_eq!(read_config_index(""), Err(String::from("Unexpected end of JSON")));
}

#[test]
fn try_capture_setup_agrees_with_capture_setup() {
    assert!(matches!(try_capture_setup(r#"{"index":2}"#), Some(CaptureSetup::Open(2))));
    match try_capture_setup("nope") {
        Some(CaptureSetup::Rejected(e)) => {
            assert_eq!(e.code, -9001);
            assert!(e.message.starts_with("config Error: "));
        }
        _ => panic!("expected a rejection"),
    }
    assert!(try_capture_setup("{}").is_none());
}

#[test]
fn empty_capture_gives_black_opaque_frame() {
    let f = frame_from_capture(2, 3, 4, &[]);
    assert_eq!(f.shape(), (2, 3, 4));
    assert_eq!(
        f.to_pixels(),
        vec![0, 0, 0, 255, 0, 0, 0, 255, 0, 0, 0, 255, 0, 0, 0, 255, 0, 0, 0, 255, 0, 0, 0, 255]
    );
    let empty = frame_from_capture(0, 5, 4, &[]);
    assert_eq!(empty.shape(), (0, 5, 4));
    assert!(empty.to_pixels().is_empty());
}

#[test]
fn five_channel_frame_keeps_fifth_channel() {
    let f = frame_from_capture(1, 2, 5, &[1, 2, 3, 4, 5, 6, 7, 8, 9, 10]);
    assert_eq!(f.shape(), (1, 2, 5));
    assert_eq!(f.to_pixels(), vec![1, 2, 3, 255, 5, 6, 7, 8, 255, 10]);
}

#[test]
fn copy_from_bytes_overwrites_a_prefix() {
    let mut f = frame_from_capture(1, 2, 4, &[7, 7, 7, 7, 7, 7, 7, 7]);
    assert_eq!(f.to_pixels(), vec![7, 7, 7, 255, 7, 7, 7, 255]);
    f.copy_from_bytes(&[1, 2, 3, 4]);
    assert_eq!(f.to_pixels(), vec![1, 2, 3, 4, 7, 7, 7, 255]);
    f.copy_from_bytes(&[]);
    assert_eq!(f.to_pixels(), vec![1, 2, 3, 4, 7, 7, 7, 255]);
    f.copy_from_bytes(&[9, 9, 9, 9, 9, 9, 9, 9]);
    assert_eq!(f.to_pixels(), vec![9; 8]);
    assert_eq!(f.shape(), (1, 2, 4));
}

#[test]
fn copy_goes_in_row_major_order() {
    let mut f = frame_from_capture(2, 2, 4, &[]);
    let bytes: Vec<u8> = (0..16u8).collect();
    f.copy_from_bytes(&bytes);
    assert_eq!(f.to_pixels(), bytes);
}

#[test]
fn fill_channel_sets_one_channel_only() {
    let mut f = frame_from_capture(2, 2, 4, &[]);
    f.copy_from_bytes(&[1, 2, 3, 4, 5, 6, 7, 8, 9, 10, 11, 12, 13, 14, 15, 16]);
    f.fill_channel(3, 255);
    assert_eq!(
        f.to_pixels(),
        vec![1, 2, 3, 255, 5, 6, 7, 255, 9, 10, 11, 255, 13, 14, 15, 255]
    );
    f.fill_channel(0, 0);
    assert_eq!(
        f.to_pixels(),
        vec![0, 2, 3, 255, 0, 6, 7, 255, 0, 10, 11, 255, 0, 14, 15, 255]
    );
}

#[test]
fn clone_keeps_shape_and_pixels() {
    let mut f = frame_from_capture(1, 1, 4, &[1, 2, 3]);
    let g = f.clone();
    assert_eq!(g.shape(), (1, 1, 4));
    assert_eq!(g.to_pixels(), vec![1, 2, 3, 255]);
    f.copy_from_bytes(&[5]);
    assert_eq!(g.to_pixels(), vec![1, 2, 3, 255]);
    assert_eq!(f.to_pixels(), vec![5, 2, 3, 255]);
}

#[test]
fn frame_from_capture_copies_raw_and_makes_opaque() {
    let f = frame_from_capture(2, 2, 4, &[10, 20, 30, 40, 50, 60]);
    assert_eq!(f.shape(), (2, 2, 4));
    assert_eq!(
        f.to_pixels(),
        vec![10, 20, 30, 255, 50, 60, 0, 255, 0, 0, 0, 255, 0, 0, 0, 255]
    );
}

#[test]
fn publish_frame_keeps_bytes_after_raw() {
    let mut f = frame_from_capture(1, 2, 4, &[1, 1, 1, 1, 1, 1, 1, 1]);
    publish_frame(&mut f, &[9, 8, 7]);
    assert_eq!(f.to_pixels(), vec![9, 8, 7, 255, 1, 1, 1, 255]);
    assert_eq!(f.shape(), (1, 2, 4));
}

#[test]
fn published_frame_is_opaque_everywhere() {
    let raw: Vec<u8> = (0..48u8).collect();
    let mut f = frame_from_capture(3, 4, 4, &[]);
    publish_frame(&mut f, &raw);
    let px = f.to_pixels();
    for (u, b) in px.iter().enumerate() {
        if u % 4 == ALPHA_CHANNEL {
            assert_eq!(*b, OPAQUE);
        } else {
            assert_eq!(*b, raw[u]);
        }
    }
}

#[test]
fn initial_frame_is_720p_rgba_and_black() {
    let f = CameraOpencv::initial_frame();
    assert_eq!(f.shape(), (INITIAL_ROWS, INITIAL_COLS, INITIAL_CHANNELS));
    assert_eq!(f.shape(), (720, 1280, 4));
    let px = f.to_pixels();
    assert_eq!(px.len(), 720 * 1280 * 4);
    assert!(px.iter().all(|b| *b == 0));
}

#[test]
fn frame_extent_is_cols_by_rows() {
    let f = frame_from_capture(720, 1280, 4, &[]);
    assert_eq!(
        frame_extent(&f),
        ImageExtent { width: 1280, height: 720, depth_or_array_layers: 1 }
    );
}

#[test]
fn frame_image_has_extent_and_bytes() {
    let f = frame_from_capture(1, 2, 4, &[1, 2, 3, 4, 5, 6, 7, 8]);
    let (extent, data) = frame_image(&f);
    assert_eq!(extent, ImageExtent { width: 2, height: 1, depth_or_array_layers: 1 });
    assert_eq!(data, vec![1, 2, 3, 255, 5, 6, 7, 255]);
    assert_eq!(data.len() as u32, extent.width * extent.height * 4);
}
