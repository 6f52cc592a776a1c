//! Range-checked control values, discovery classification, and changed-only
//! submission.

use capture_engine::controls::{
    AeMeteringMode, AwbMode, CameraControlType, CameraControlValue, CameraControls, ControlPair,
    Fixed, FixedPair, MinMaxValue, RawControlValue, Rectangle, Size,
};
use capture_engine::LibcameraError;

fn fx(micros: i64) -> Fixed {
    Fixed { micros }
}

#[test]
fn set_value_rejects_out_of_range_without_mutating() {
    let mut v = MinMaxValue::new(0i32, 10i32, 5i32).unwrap();
    assert_eq!(*v.get_value(), 5);
    assert!(!v.set_value(11));
    assert_eq!(*v.get_value(), 5);
    assert!(!v.set_value(-1));
    assert_eq!(*v.get_value(), 5);
    assert!(v.set_value(10));
    assert_eq!(*v.get_value(), 10);
    assert_eq!(v.min(), Some(&0));
    assert_eq!(v.max(), Some(&10));
    assert_eq!(*v.get_default(), 5);
}

#[test]
fn set_value_clamped_always_lands_inside_the_range() {
    let mut v = MinMaxValue::new(0i32, 10i32, 5i32).unwrap();
    v.set_value_clamped(42);
    assert_eq!(*v.get_value(), 10);
    v.set_value_clamped(-3);
    assert_eq!(*v.get_value(), 0);
    v.set_value_clamped(7);
    assert_eq!(*v.get_value(), 7);
}

#[test]
fn degenerate_ranges_accept_every_write() {
    // min >= max: the range is dropped and every write succeeds.
    let mut v = MinMaxValue::new(9i32, 3i32, 1i32).unwrap();
    assert_eq!(v.min(), None);
    assert_eq!(v.max(), None);
    assert!(v.set_value(1000));
    assert_eq!(*v.get_value(), 1000);
    v.set_value_clamped(-1000);
    assert_eq!(*v.get_value(), -1000);
}

#[test]
fn defaults_outside_the_range_fail_construction() {
    assert_eq!(MinMaxValue::new(0i32, 10i32, 11i32).err(), Some(
        LibcameraError::InvalidControlValue,
    ));
    assert_eq!(MinMaxValue::new(fx(0), fx(1_000_000), fx(-1)).err(), Some(
        LibcameraError::InvalidControlValue,
    ));
}

#[test]
fn rectangles_and_sizes_clamp_componentwise() {
    let min = Rectangle { x: 0, y: 0, width: 10, height: 10 };
    let max = Rectangle { x: 100, y: 100, width: 200, height: 200 };
    let def = Rectangle { x: 5, y: 5, width: 50, height: 50 };
    let mut v = MinMaxValue::new(min, max, def).unwrap();
    v.set_value_clamped(Rectangle { x: -5, y: 300, width: 100, height: 5 });
    assert_eq!(*v.get_value(), Rectangle { x: 0, y: 100, width: 100, height: 10 });
    let mut s = MinMaxValue::new(
        Size { width: 2, height: 2 },
        Size { width: 8, height: 8 },
        Size { width: 4, height: 4 },
    ).unwrap();
    assert!(!s.set_value(Size { width: 9, height: 4 }));
    assert_eq!(*s.get_value(), Size { width: 4, height: 4 });
    s.set_value_clamped(Size { width: 9, height: 1 });
    assert_eq!(*s.get_value(), Size { width: 8, height: 2 });
}

#[test]
fn string_values_order_lexicographically() {
    let mut v = MinMaxValue::new(
        "apple".to_string(),
        "orange".to_string(),
        "grape".to_string(),
    ).unwrap();
    assert!(v.set_value("banana".to_string()));
    assert!(!v.set_value("zebra".to_string()));
    assert_eq!(v.get_value().as_str(), "banana");
    v.set_value_clamped("zebra".to_string());
    assert_eq!(v.get_value().as_str(), "orange");
}

fn float_pair(id: u32, name: &str, min: f64, max: f64, default: f64) -> ControlPair {
    ControlPair {
        id,
        name: name.to_string(),
        control_type: CameraControlType::Float,
        is_array: false,
        min: RawControlValue::Float(fx((min * 1e6) as i64)),
        max: RawControlValue::Float(fx((max * 1e6) as i64)),
        value: RawControlValue::Float(fx((default * 1e6) as i64)),
    }
}

#[test]
fn discovery_fills_well_known_fields() {
    let list = vec![
        float_pair(9, "Brightness", -1.0, 1.0, 0.0),
        ControlPair {
            id: 1,
            name: "AeEnable".to_string(),
            control_type: CameraControlType::Bool,
            is_array: false,
            min: RawControlValue::Bool(false),
            max: RawControlValue::Bool(true),
            value: RawControlValue::Bool(true),
        },
        ControlPair {
            id: 3,
            name: "AeMeteringMode".to_string(),
            control_type: CameraControlType::Integer32,
            is_array: false,
            min: RawControlValue::Integer32(0),
            max: RawControlValue::Integer32(3),
            value: RawControlValue::Integer32(1),
        },
        ControlPair {
            id: 13,
            name: "AwbMode".to_string(),
            control_type: CameraControlType::Integer32,
            is_array: false,
            min: RawControlValue::Integer32(0),
            max: RawControlValue::Integer32(7),
            value: RawControlValue::Integer32(5),
        },
        ControlPair {
            id: 15,
            name: "ColourGains".to_string(),
            control_type: CameraControlType::Float,
            is_array: true,
            min: RawControlValue::FloatArray(vec![fx(0), fx(0)]),
            max: RawControlValue::FloatArray(vec![fx(8_000_000), fx(8_000_000)]),
            value: RawControlValue::FloatArray(vec![fx(1_000_000), fx(1_000_000)]),
        },
    ];
    let controls = CameraControls::from_libcamera(list);
    let brightness = controls.brightness.as_ref().unwrap();
    assert_eq!(*brightness.get_default(), fx(0));
    assert_eq!(brightness.min(), Some(&fx(-1_000_000)));
    assert!(*controls.ae_enable.as_ref().unwrap().get_value());
    assert_eq!(*controls.ae_metering_mode.as_ref().unwrap().get_value(), AeMeteringMode::Spot);
    assert_eq!(*controls.awb_mode.as_ref().unwrap().get_value(), AwbMode::Daylight);
    assert_eq!(
        *controls.colour_gains.as_ref().unwrap().get_value(),
        FixedPair(fx(1_000_000), fx(1_000_000))
    );
    assert!(controls.others.is_empty());
}

#[test]
fn discovery_routes_unknown_controls_to_the_generic_bucket() {
    let list = vec![
        // Unknown name with a representable type: lands in the bucket.
        ControlPair {
            id: 77,
            name: "VendorGadget".to_string(),
            control_type: CameraControlType::Integer32,
            is_array: false,
            min: RawControlValue::Integer32(0),
            max: RawControlValue::Integer32(9),
            value: RawControlValue::Integer32(4),
        },
        // Known name whose values cannot convert: falls back by declared
        // type instead of filling the field.
        ControlPair {
            id: 9,
            name: "Brightness".to_string(),
            control_type: CameraControlType::Integer32,
            is_array: false,
            min: RawControlValue::Integer32(0),
            max: RawControlValue::Integer32(100),
            value: RawControlValue::Integer32(50),
        },
        // A type that cannot be represented at all: dropped, not an error.
        ControlPair {
            id: 78,
            name: "VendorBlob".to_string(),
            control_type: CameraControlType::Byte,
            is_array: true,
            min: RawControlValue::Byte(0),
            max: RawControlValue::Byte(255),
            value: RawControlValue::Byte(1),
        },
    ];
    let controls = CameraControls::from_libcamera(list);
    assert!(controls.brightness.is_none());
    assert_eq!(controls.others.len(), 2);
    assert_eq!(controls.others[0].0, 77);
    assert_eq!((controls.others[0].1).0, "VendorGadget");
    match &controls.others[0].1.1 {
        CameraControlValue::Integer32(v) => assert_eq!(*v.get_value(), 4),
        _ => panic!("expected a 32-bit integer control"),
    }
    assert_eq!(controls.others[1].0, 9);
    match &controls.others[1].1.1 {
        CameraControlValue::Integer32(v) => assert_eq!(*v.get_value(), 50),
        _ => panic!("expected a 32-bit integer control"),
    }
}

#[test]
fn only_changed_controls_are_submitted() {
    let list = vec![
        float_pair(9, "Brightness", -1.0, 1.0, 0.0),
        float_pair(10, "Contrast", 0.0, 2.0, 1.0),
    ];
    let mut controls = CameraControls::from_libcamera(list);
    // Brightness default 0.0, never changed: it must not appear.
    assert!(controls.get_libcamera().is_empty());
    // After setting 0.3 it must appear with value 0.3, alone.
    assert!(controls.brightness.as_mut().unwrap().set_value(fx(300_000)));
    let submitted = controls.get_libcamera();
    assert_eq!(submitted.len(), 1);
    assert_eq!(submitted[0].0, 9);
    match &submitted[0].1 {
        RawControlValue::Float(f) => assert_eq!(f.micros, 300_000),
        _ => panic!("expected a fractional value"),
    }
    // Setting a value back to the default removes it from the payload.
    assert!(controls.brightness.as_mut().unwrap().set_value(fx(0)));
    assert!(controls.get_libcamera().is_empty());
}

#[test]
fn submission_encodes_each_control_kind_under_its_id() {
    let list = vec![
        ControlPair {
            id: 1,
            name: "AeEnable".to_string(),
            control_type: CameraControlType::Bool,
            is_array: false,
            min: RawControlValue::Bool(false),
            max: RawControlValue::Bool(true),
            value: RawControlValue::Bool(false),
        },
        ControlPair {
            id: 13,
            name: "AwbMode".to_string(),
            control_type: CameraControlType::Integer32,
            is_array: false,
            min: RawControlValue::Integer32(0),
            max: RawControlValue::Integer32(7),
            value: RawControlValue::Integer32(0),
        },
        ControlPair {
            id: 77,
            name: "VendorGadget".to_string(),
            control_type: CameraControlType::Integer64,
            is_array: false,
            min: RawControlValue::Integer64(0),
            max: RawControlValue::Integer64(1000),
            value: RawControlValue::Integer64(10),
        },
    ];
    let mut controls = CameraControls::from_libcamera(list);
    controls.ae_enable.as_mut().unwrap().set_value(true);
    controls.awb_mode.as_mut().unwrap().set_value(AwbMode::Cloudy);
    match &mut controls.others[0].1.1 {
        CameraControlValue::Integer64(v) => assert!(v.set_value(500)),
        _ => panic!("expected a 64-bit integer control"),
    }
    let submitted = controls.get_libcamera();
    assert_eq!(submitted.len(), 3);
    assert_eq!(submitted[0].0, 1);
    assert!(matches!(submitted[0].1, RawControlValue::Bool(true)));
    assert_eq!(submitted[1].0, 13);
    assert!(matches!(submitted[1].1, RawControlValue::Integer32(6)));
    assert_eq!(submitted[2].0, 77);
    assert!(matches!(submitted[2].1, RawControlValue::Integer64(500)));
}

#[test]
fn mode_codes_round_trip() {
    for i in 0..4 {
        assert_eq!(AeMeteringMode::from_code(i).unwrap().code(), i);
    }
    assert_eq!(AeMeteringMode::from_code(4).err(), Some(LibcameraError::InvalidControlValue));
    for i in 0..8 {
        assert_eq!(AwbMode::from_code(i).unwrap().code(), i);
    }
    assert_eq!(AwbMode::from_code(-1).err(), Some(LibcameraError::InvalidControlValue));
}

#[test]
fn generic_bucket_covers_every_representable_kind() {
    let list = vec![
        ControlPair {
            id: 50,
            name: "VendorFlag".to_string(),
            control_type: CameraControlType::NoValue,
            is_array: false,
            min: RawControlValue::NoValue,
            max: RawControlValue::NoValue,
            value: RawControlValue::NoValue,
        },
        ControlPair {
            id: 51,
            name: "VendorCurve".to_string(),
            control_type: CameraControlType::Float,
            is_array: true,
            min: RawControlValue::FloatArray(vec![fx(0), fx(0), fx(0)]),
            max: RawControlValue::FloatArray(vec![fx(9), fx(9), fx(9)]),
            value: RawControlValue::FloatArray(vec![fx(1), fx(2), fx(3)]),
        },
        ControlPair {
            id: 52,
            name: "VendorLabel".to_string(),
            control_type: CameraControlType::String,
            is_array: false,
            min: RawControlValue::String("a".to_string()),
            max: RawControlValue::String("z".to_string()),
            value: RawControlValue::String("m".to_string()),
        },
        ControlPair {
            id: 53,
            name: "VendorWindow".to_string(),
            control_type: CameraControlType::Rectangle,
            is_array: false,
            min: RawControlValue::Rectangle(Rectangle { x: 0, y: 0, width: 0, height: 0 }),
            max: RawControlValue::Rectangle(Rectangle { x: 9, y: 9, width: 9, height: 9 }),
            value: RawControlValue::Rectangle(Rectangle { x: 1, y: 1, width: 2, height: 2 }),
        },
        ControlPair {
            id: 54,
            name: "VendorGrid".to_string(),
            control_type: CameraControlType::Size,
            is_array: false,
            min: RawControlValue::Size(Size { width: 1, height: 1 }),
            max: RawControlValue::Size(Size { width: 4, height: 4 }),
            value: RawControlValue::Size(Size { width: 2, height: 2 }),
        },
    ];
    let mut controls = CameraControls::from_libcamera(list);
    assert_eq!(controls.others.len(), 5);
    assert!(matches!(controls.others[0].1.1, CameraControlValue::NoValue));
    match &controls.others[1].1.1 {
        CameraControlValue::FloatArray(arr) => {
            assert_eq!(arr.len(), 3);
            assert_eq!(*arr[2].get_value(), fx(3));
        },
        _ => panic!("expected a fractional array control"),
    }
    // Nothing changed yet, so nothing is submitted.
    assert!(controls.get_libcamera().is_empty());
    // Change one array element and the string; both appear, nothing else.
    match &mut controls.others[1].1.1 {
        CameraControlValue::FloatArray(arr) => assert!(arr[0].set_value(fx(5))),
        _ => panic!("expected a fractional array control"),
    }
    match &mut controls.others[2].1.1 {
        CameraControlValue::String(v) => assert!(v.set_value("q".to_string())),
        _ => panic!("expected a string control"),
    }
    let submitted = controls.get_libcamera();
    assert_eq!(submitted.len(), 2);
    assert_eq!(submitted[0].0, 51);
    match &submitted[0].1 {
        RawControlValue::FloatArray(vals) => assert_eq!(vals, &vec![fx(5), fx(2), fx(3)]),
        _ => panic!("expected a fractional array value"),
    }
    assert_eq!(submitted[1].0, 52);
    match &submitted[1].1 {
        RawControlValue::String(s) => assert_eq!(s, "q"),
        _ => panic!("expected a string value"),
    }
}

#[test]
fn array_elements_with_bad_defaults_drop_the_control() {
    // The middle element's default lies outside its range: the whole array
    // control is dropped, not partially built.
    let list = vec![ControlPair {
        id: 51,
        name: "VendorCurve".to_string(),
        control_type: CameraControlType::Float,
        is_array: true,
        min: RawControlValue::FloatArray(vec![fx(0), fx(0)]),
        max: RawControlValue::FloatArray(vec![fx(9), fx(9)]),
        value: RawControlValue::FloatArray(vec![fx(1), fx(100)]),
    }];
    let controls = CameraControls::from_libcamera(list);
    assert!(controls.others.is_empty());
}
