use chrono::{TimeZone, Utc};
use glacio::camera::camera::{
    count_of, gaps_between, is_active, most_common, Camera, IntervalError, IntervalLabel,
};
use glacio::camera::image::{DateFields, Image, InvalidFileName};

fn images(names: &[&str]) -> Vec<Image> {
    names.iter().map(|name| Image::from_path(name).unwrap()).collect()
}

#[test]
fn image_from_path() {
    let image = Image::from_path("ATLAS_CAM_20180813_182500.jpg").unwrap();
    assert_eq!(
        Utc.with_ymd_and_hms(2018, 8, 13, 18, 25, 0).unwrap().timestamp(),
        image.datetime()
    );

    let image = Image::from_path("ATLAS_CAM2_StarDot1_20180813_132500.jpg").unwrap();
    assert_eq!(
        Utc.with_ymd_and_hms(2018, 8, 13, 13, 25, 0).unwrap().timestamp(),
        image.datetime()
    );

    assert_eq!(
        InvalidFileName("Cargo.toml".to_string()),
        Image::from_path("Cargo.toml").unwrap_err()
    );
}

#[test]
fn image_keeps_its_path() {
    let path = "fixtures/camera/images/one/camera_20180614_120000.jpg";
    let image = Image::from_path(path).unwrap();
    assert_eq!(path, image.path());
    assert_eq!(1528977600, image.datetime());
    assert_eq!(image, image.clone());
    assert!(Image::from_path("not-correct.jpg").is_err());
    assert!(Image::from_path("camera_20180614_120000.jpg/").is_ok());
    assert!(Image::from_path("camera_20180614_120000.jpg/other.txt").is_err());
}

#[test]
fn image_file_names() {
    let path = "dir/whatever";
    assert!(Image::from_file_name(path, "camera_20180614_120000.jpg").is_ok());
    assert!(Image::from_file_name(path, "camera_20180614_120000xjpg").is_ok());
    assert_eq!(
        Err(InvalidFileName(path.to_string())),
        Image::from_file_name(path, "camera_20180614_120000.jpeg")
    );
    assert!(Image::from_file_name(path, "_20180614_120000.jpg").is_err());
    assert!(Image::from_file_name(path, "cam-era_20180614_120000.jpg").is_err());
    assert!(Image::from_file_name(path, "camera_20181314_120000.jpg").is_err());
    assert!(Image::from_file_name(path, "camera_20180230_120000.jpg").is_err());
    assert!(Image::from_file_name(path, "camera_20180614_240000.jpg").is_err());
    assert!(Image::from_file_name(path, "camera_20180614_126000.jpg").is_err());
    assert!(Image::from_file_name(path, "camera_٢٠١٨0614_120000.jpg").is_err());
    let leap = Image::from_file_name(path, "a_20160229_235959.jpg").unwrap();
    assert_eq!(1456790399, leap.datetime());
    let epoch = Image::from_file_name(path, "a_19700101_000000.jpg").unwrap();
    assert_eq!(0, epoch.datetime());
    let early = Image::from_file_name(path, "a_00010101_000000.jpg").unwrap();
    assert_eq!(-62135596800, early.datetime());
}

#[test]
fn image_with_timestamp() {
    assert_eq!(5, Image::with_timestamp("a", Some(5)).unwrap().datetime());
    assert_eq!(Err(InvalidFileName("a".to_string())), Image::with_timestamp("a", None));
    assert!(Image::with_timestamp("a", Some(i64::MAX)).is_err());
    assert!(Image::with_timestamp("a", Some(i64::MIN)).is_err());
    assert!(Image::with_timestamp("a", Some(0x3fff_ffff_ffff_ffff)).is_ok());
    assert!(Image::with_timestamp("a", Some(-0x3fff_ffff_ffff_ffff)).is_ok());
    assert!(Image::with_timestamp("a", Some(0x4000_0000_0000_0000)).is_err());
}

#[test]
fn date_fields() {
    let group = |s: &str| Some(s.to_string());
    let groups = Some(vec![
        group("all"),
        group("name"),
        group("2018"),
        group("08"),
        group("13"),
        group("18"),
        group("25"),
        group("07"),
    ]);
    let fields = DateFields::from_captures(&groups).unwrap();
    assert_eq!(
        DateFields { year: 2018, month: 8, day: 13, hour: 18, minute: 25, second: 7 },
        fields
    );
    assert_eq!(Some(1534184707), fields.to_timestamp());
    assert_eq!(None, DateFields::from_captures(&None));
    assert_eq!(None, DateFields::from_captures(&Some(vec![group("all"), group("name")])));
    let mut missing = groups.clone().unwrap();
    missing[4] = None;
    assert_eq!(None, DateFields::from_captures(&Some(missing)));
    let mut long = groups.clone().unwrap();
    long[3] = group("123");
    assert_eq!(None, DateFields::from_captures(&Some(long)));
    let invalid = DateFields { year: 2018, month: 2, day: 29, hour: 0, minute: 0, second: 0 };
    assert_eq!(None, invalid.to_timestamp());
}

#[test]
fn no_images() {
    let camera = Camera::from_path("fixtures/camera/interval/no_images");
    assert_eq!(Err(IntervalError::NoImages(camera.clone())), camera.interval(&Vec::new()));
    assert_eq!("fixtures/camera/interval/no_images", camera.path());
}

#[test]
fn one_image() {
    let camera = Camera::from_path("fixtures/camera/interval/one_image");
    assert!(camera.interval(&images(&["camera_20180614_120000.jpg"])).is_err());
}

#[test]
fn three_hours() {
    let camera = Camera::from_path("fixtures/camera/interval/three_hours");
    let list = images(&[
        "camera_20180614_120000.jpg",
        "camera_20180614_150000.jpg",
        "camera_20180614_180000.jpg",
    ]);
    assert_eq!(Ok(3 * 3600), camera.interval(&list));
}

#[test]
fn ambiguous() {
    let camera = Camera::from_path("fixtures/camera/interval/ambiguous");
    let list = images(&[
        "camera_20180614_120000.jpg",
        "camera_20180614_150000.jpg",
        "camera_20180614_160000.jpg",
    ]);
    assert_eq!(Err(IntervalError::Ambiguous(vec![3600, 3 * 3600])), camera.interval(&list));
}

#[test]
fn three_hours_with_gaps() {
    let camera = Camera::from_path("fixtures/camera/interval/three_hours_with_gaps");
    let list = images(&[
        "camera_20180614_120000.jpg",
        "camera_20180614_150000.jpg",
        "camera_20180614_180000.jpg",
        "camera_20180615_000000.jpg",
        "camera_20180615_030000.jpg",
        "camera_20180615_120000.jpg",
    ]);
    assert_eq!(Ok(3 * 3600), camera.interval(&list));
}

#[test]
fn gaps_and_counts() {
    let list = images(&[
        "a_20180614_120000.jpg",
        "a_20180614_120010.jpg",
        "a_20180614_120005.jpg",
    ]);
    assert_eq!(vec![10, -5], gaps_between(&list));
    assert!(gaps_between(&list[..1].to_vec()).is_empty());
    assert_eq!(0, count_of(&vec![], 1));
    assert_eq!(3, count_of(&vec![1, 2, 1, 3, 1], 1));
    assert_eq!(0, count_of(&vec![1, 2, 1, 3, 1], 4));
    assert_eq!(None, most_common(&vec![]));
    assert_eq!(Some(Ok(7)), most_common(&vec![7]));
    assert_eq!(Some(Ok(1)), most_common(&vec![1, 2, 1, 3, 1, 2]));
    assert_eq!(Some(Err(vec![-4, 2, 9])), most_common(&vec![9, 2, -4, 2, 5, 9, -4]));
    let extremes = images(&["a_00010101_000000.jpg", "a_99991231_235959.jpg"]);
    assert_eq!(vec![315537897599], gaps_between(&extremes));
}

#[test]
fn interval_labels() {
    assert_eq!(IntervalLabel::Hours(3), IntervalLabel::new(10800));
    assert_eq!(IntervalLabel::Hours(0), IntervalLabel::new(0));
    assert_eq!(IntervalLabel::Minutes(90), IntervalLabel::new(5400));
    assert_eq!(IntervalLabel::Seconds(61), IntervalLabel::new(61));
    assert_eq!(IntervalLabel::Hours(-2), IntervalLabel::new(-7200));
    assert_eq!(IntervalLabel::Minutes(-1), IntervalLabel::new(-60));
    assert_eq!(IntervalLabel::Seconds(-59), IntervalLabel::new(-59));
    assert_eq!(IntervalLabel::Seconds(i64::MIN), IntervalLabel::new(i64::MIN));
    assert_eq!(IntervalLabel::Seconds(i64::MAX), IntervalLabel::new(i64::MAX));
    assert!(is_active(1000, 900, 51));
    assert!(!is_active(1000, 900, 50));
    assert!(!is_active(i64::MAX, i64::MIN, i64::MAX));
    assert!(!is_active(i64::MIN, i64::MAX, i64::MIN));
    assert!(is_active(i64::MIN, i64::MAX, i64::MIN + 1));
}
