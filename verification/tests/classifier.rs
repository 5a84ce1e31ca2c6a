use spectral_analysis::classifier::{
    accelerometer_fields, label_code, load_classes, most_probable, CLASSES_NOT_LOADED,
    CLASS_COUNT_MISMATCH, E, INFINITY32, NO_PROBABILITY, REPORT_NOT_CREATED, REPORT_NOT_WRITTEN, SIGN32,
};
use spectral_analysis::serial::serialPrintln;
use spectral_analysis::text::{is_white_space, split_trimmed};

fn bits_of(values: &[f32]) -> Vec<u32> {
    values.iter().map(|v| v.to_bits()).collect()
}

#[test]
fn every_failure_has_its_own_status() {
    assert_eq!(E::ModelLoad.code(), -1);
    assert_eq!(E::Optimization.code(), -2);
    assert_eq!(E::Runnable.code(), -3);
    assert_eq!(E::DataLoad.code(), -4);
    assert_eq!(E::Run.code(), -5);
    assert_eq!(E::Conversion.code(), -6);
    assert_eq!(NO_PROBABILITY, -7);
    assert_eq!(REPORT_NOT_CREATED, -8);
    assert_eq!(REPORT_NOT_WRITTEN, -9);
    assert_eq!(CLASSES_NOT_LOADED, -10);
    assert_eq!(CLASS_COUNT_MISMATCH, -11);
}

#[test]
fn class_names_are_the_trimmed_lines() {
    assert_eq!(load_classes("idle\nsnake\nupdown\nwave\n").unwrap(), vec!["idle", "snake", "updown", "wave"]);
    assert_eq!(load_classes("idle\nwave").unwrap(), vec!["idle", "wave"]);
    assert_eq!(load_classes("  idle \r\n\twave\t\r\n").unwrap(), vec!["idle", "wave"]);
    assert_eq!(load_classes("a,b\n\n c d \n").unwrap(), vec!["a,b", "", "c d"]);
    assert_eq!(load_classes("").unwrap(), Vec::<String>::new());
    assert_eq!(load_classes("\n").unwrap(), vec![""]);
    assert_eq!(load_classes("\n\n").unwrap(), vec!["", ""]);
    assert_eq!(load_classes(" \u{3000}x\u{a0}").unwrap(), vec!["x"]);
}

#[test]
fn class_names_agree_with_lines_and_trim() {
    let texts = [
        "",
        "\n",
        "\r\n",
        "\r",
        "a",
        "a\n",
        "a\r\n",
        "a\rb\n",
        "a\n\nb",
        "  a  \n  b  ",
        "\n\na\n\n",
        "x\u{2003}\ny\u{85}\u{2028}z",
        "one two\r\n three\r\nfour \r",
        "\u{1680}\u{180e}z\u{feff}\n",
    ];
    for text in texts {
        let want: Vec<String> = text.lines().map(|line| line.trim().to_string()).collect();
        assert_eq!(load_classes(text).unwrap(), want);
        assert_eq!(split_trimmed(text, false), want);
    }
}

#[test]
fn fields_are_the_trimmed_comma_separated_parts_of_each_line() {
    assert_eq!(accelerometer_fields("1.73, 1.08, 10.52"), vec!["1.73", "1.08", "10.52"]);
    assert_eq!(accelerometer_fields("1, 2\n3,4\n"), vec!["1", "2", "3", "4"]);
    assert_eq!(accelerometer_fields("1,,2,"), vec!["1", "", "2", ""]);
    assert_eq!(accelerometer_fields("\n"), vec![""]);
    assert_eq!(accelerometer_fields(""), Vec::<String>::new());
    assert_eq!(accelerometer_fields(",\n"), vec!["", ""]);
}

#[test]
fn fields_agree_with_lines_split_and_trim() {
    let texts = [
        "",
        ",",
        "\n",
        ",\n,",
        "1,2,3",
        "1,2,3\n",
        "1, 2 ,3\r\n4,5\r\n",
        " 1.5 ,\t-2e3\n\n7",
        "a,b\n,\n",
        "1,2\n3,4,",
    ];
    for text in texts {
        let mut want: Vec<String> = Vec::new();
        for line in text.lines() {
            for field in line.split(',') {
                want.push(field.trim().to_string());
            }
        }
        assert_eq!(accelerometer_fields(text), want);
        assert_eq!(split_trimmed(text, true), want);
    }
}

#[test]
fn fields_of_recorded_samples_parse_back() {
    let text = "1.73, 1.08, 10.52, 1.74, 0.73, 10.16";
    let numbers: Vec<f32> = accelerometer_fields(text).iter().map(|f| f.parse().unwrap()).collect();
    assert_eq!(numbers, vec![1.73, 1.08, 10.52, 1.74, 0.73, 10.16]);
}

#[test]
fn white_space_is_what_the_standard_library_calls_white_space() {
    for n in 0..=0x10FFFFu32 {
        if let Some(c) = char::from_u32(n) {
            assert_eq!(is_white_space(c), c.is_whitespace(), "U+{:04X}", n);
        }
    }
}

#[test]
fn most_probable_class_is_the_last_of_the_largest() {
    assert_eq!(most_probable(&bits_of(&[0.1, 0.7, 0.2])), Some(1));
    assert_eq!(most_probable(&bits_of(&[0.5, 0.25, 0.5])), Some(2));
    assert_eq!(most_probable(&bits_of(&[0.9])), Some(0));
    assert_eq!(most_probable(&bits_of(&[f32::NAN])), Some(0));
    assert_eq!(most_probable(&bits_of(&[])), None);
    assert_eq!(most_probable(&bits_of(&[-3.0, -1.0, -2.0])), Some(1));
    assert_eq!(most_probable(&bits_of(&[0.0, -0.0])), Some(1));
    assert_eq!(most_probable(&bits_of(&[-0.0, 0.0, -1e-40])), Some(1));
    assert_eq!(most_probable(&bits_of(&[f32::NEG_INFINITY, f32::INFINITY, f32::MAX])), Some(1));
}

#[test]
fn most_probable_class_agrees_with_the_standard_maximum() {
    let lists: [&[f32]; 6] = [
        &[0.25, 0.25, 0.25, 0.25],
        &[1e-30, 1e-20, 1e-10],
        &[3.0, 2.0, 1.0],
        &[-1.0, 0.0, -0.0, 1e-45],
        &[0.01, 0.97, 0.97, 0.01],
        &[f32::INFINITY, 1.0, f32::INFINITY, f32::NEG_INFINITY],
    ];
    for list in lists {
        let want = list
            .iter()
            .enumerate()
            .max_by(|a, b| a.1.partial_cmp(b.1).unwrap())
            .map(|(index, _)| index);
        assert_eq!(most_probable(&bits_of(list)), want);
    }
}

#[test]
fn label_is_the_index_of_the_most_probable_class() {
    assert_eq!(label_code(&bits_of(&[0.1, 0.2, 0.6, 0.1])), 2);
    assert_eq!(label_code(&bits_of(&[1.0])), 0);
    assert_eq!(label_code(&bits_of(&[])), NO_PROBABILITY);
}

#[test]
fn binary32_constants_are_the_patterns_they_name() {
    assert_eq!(SIGN32, (-0.0f32).to_bits());
    assert_eq!(INFINITY32, f32::INFINITY.to_bits());
}

#[test]
fn serial_line_ends_with_a_line_feed() {
    assert_eq!(serialPrintln("hello"), "hello\n");
    assert_eq!(serialPrintln(""), "\n");
    assert_eq!(serialPrintln("a\nb"), "a\nb\n");
    assert_eq!(serialPrintln("\u{e4}\u{4e16}"), "\u{e4}\u{4e16}\n");
}
