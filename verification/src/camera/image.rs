//! The `Image` struct and associated helper types.

use crate::text::{captures, captures_view, file_name, parse_bounded, parse_decimal, regex_captures};
use chrono::TimeZone;
use vstd::prelude::*;

verus! {

/// The largest distance from the Unix epoch, in seconds, at which an image can be taken.
pub const MAX_TIMESTAMP: i64 = 0x3fff_ffff_ffff_ffff;

/// The number of seconds from the Unix epoch to a date and time of the
/// proleptic Gregorian calendar in UTC; none where there is no such date or time.
pub uninterp spec fn utc_timestamp(
    year: int,
    month: int,
    day: int,
    hour: int,
    minute: int,
    second: int,
) -> Option<int>;

/// Counts the seconds from the Unix epoch to a date and time in UTC.
///
/// Calls `chrono::TimeZone::with_ymd_and_hms` on `chrono::Utc` and
/// `chrono::DateTime::timestamp`. The result is `None` where chrono finds no
/// such date or time; the number that it holds otherwise is only named here.
#[verifier::external_body]
fn seconds_since_epoch(year: u16, month: u8, day: u8, hour: u8, minute: u8, second: u8) -> (seconds:
    Option<i64>)
    ensures
        match seconds {
            Some(seconds) => utc_timestamp(
                year as int,
                month as int,
                day as int,
                hour as int,
                minute as int,
                second as int,
            ) == Some(seconds as int),
            None => utc_timestamp(
                year as int,
                month as int,
                day as int,
                hour as int,
                minute as int,
                second as int,
            ) is None,
        },
{
    chrono::Utc.with_ymd_and_hms(
        year.into(),
        month.into(),
        day.into(),
        hour.into(),
        minute.into(),
        second.into(),
    ).single().map(|datetime| datetime.timestamp())
}

/// The date and the time of day, as a file name writes them.
#[derive(Clone, Copy, Debug, PartialEq, Eq, Structural)]
pub struct DateFields {
    pub year: u16,
    pub month: u8,
    pub day: u8,
    pub hour: u8,
    pub minute: u8,
    pub second: u8,
}

impl DateFields {
    /// The number of seconds from the Unix epoch to this date and time in UTC.
    pub open spec fn timestamp(self) -> Option<int> {
        utc_timestamp(
            self.year as int,
            self.month as int,
            self.day as int,
            self.hour as int,
            self.minute as int,
            self.second as int,
        )
    }

    /// Counts the seconds from the Unix epoch to this date and time in UTC.
    pub fn to_timestamp(self) -> (seconds: Option<i64>)
        ensures
            match seconds {
                Some(seconds) => self.timestamp() == Some(seconds as int),
                None => self.timestamp() is None,
            },
    {
        seconds_since_epoch(self.year, self.month, self.day, self.hour, self.minute, self.second)
    }

    /// The number that a group of a match writes, if the group took part in
    /// the match and writes one that is no larger than `max`.
    pub open spec fn number(group: Option<Seq<char>>, max: nat) -> Option<nat> {
        match group {
            Some(digits) => parse_decimal(digits, max),
            None => None,
        }
    }

    /// The date and time in what the pattern of image file names captured:
    /// in the last six of the eight groups.
    pub open spec fn of_captures(groups: Option<Seq<Option<Seq<char>>>>) -> Option<DateFields> {
        match groups {
            Some(groups) => if groups.len() == 8 && Self::number(groups[2], 9999) is Some
                && Self::number(groups[3], 99) is Some && Self::number(groups[4], 99) is Some
                && Self::number(groups[5], 99) is Some && Self::number(groups[6], 99) is Some
                && Self::number(groups[7], 99) is Some {
                Some(
                    DateFields {
                        year: Self::number(groups[2], 9999)->0 as u16,
                        month: Self::number(groups[3], 99)->0 as u8,
                        day: Self::number(groups[4], 99)->0 as u8,
                        hour: Self::number(groups[5], 99)->0 as u8,
                        minute: Self::number(groups[6], 99)->0 as u8,
                        second: Self::number(groups[7], 99)->0 as u8,
                    },
                )
            } else {
                None
            },
            None => None,
        }
    }

    /// Reads the number that a group of a match writes.
    fn read_number(group: &Option<String>, max: usize) -> (n: Option<usize>)
        ensures
            match Self::number(
                match group {
                    Some(s) => Some(s@),
                    None => None,
                },
                max as nat,
            ) {
                Some(value) => n == Some(value as usize),
                None => n is None,
            },
    {
        match group {
            Some(digits) => parse_bounded(digits.as_str(), max),
            None => None,
        }
    }

    /// Reads the date and time in what the pattern of image file names captured.
    pub fn from_captures(groups: &Option<Vec<Option<String>>>) -> (fields: Option<DateFields>)
        ensures
            fields == DateFields::of_captures(captures_view(*groups)),
    {
        let groups: &Vec<Option<String>> = match groups {
            Some(groups) => groups,
            None => {
                return None;
            },
        };
        if groups.len() != 8 {
            return None;
        }
        let year: usize = Self::read_number(&groups[2], 9999)?;
        let month: usize = Self::read_number(&groups[3], 99)?;
        let day: usize = Self::read_number(&groups[4], 99)?;
        let hour: usize = Self::read_number(&groups[5], 99)?;
        let minute: usize = Self::read_number(&groups[6], 99)?;
        let second: usize = Self::read_number(&groups[7], 99)?;
        Some(
            DateFields {
                year: year as u16,
                month: month as u8,
                day: day as u8,
                hour: hour as u8,
                minute: minute as u8,
                second: second as u8,
            },
        )
    }
}

/// A remote camera image.
#[derive(Debug, PartialEq, Eq, PartialOrd, Ord)]
pub struct Image {
    datetime: i64,
    path: String,
}

/// What an `Image` holds.
pub struct ImageView {
    /// The time at which the image was taken, in seconds since the Unix epoch.
    pub datetime: i64,
    /// The path of the file that holds the image.
    pub path: Seq<char>,
}

/// Error returned when trying to open an image with an invalid file name.
#[derive(Debug, PartialEq, Eq)]
pub struct InvalidFileName(pub String);

impl View for Image {
    type V = ImageView;

    closed spec fn view(&self) -> ImageView {
        ImageView { datetime: self.datetime, path: self.path@ }
    }
}

impl DeepView for Image {
    type V = ImageView;

    open spec fn deep_view(&self) -> ImageView {
        self@
    }
}

impl Clone for Image {
    fn clone(&self) -> (copy: Image)
        ensures
            copy@ == self@,
    {
        proof {
            use_type_invariant(self);
        }
        Image { datetime: self.datetime, path: self.path.clone() }
    }
}

impl ImageView {
    /// Whether the time of the image is one at which an image can be taken.
    pub open spec fn wf(self) -> bool {
        -MAX_TIMESTAMP <= self.datetime <= MAX_TIMESTAMP
    }
}

impl Image {
    #[verifier::type_invariant]
    spec fn in_range(self) -> bool {
        -MAX_TIMESTAMP <= self.datetime <= MAX_TIMESTAMP
    }

    /// The regular expression that the file name of an image matches: a name,
    /// the date, the time of day and the extension.
    pub open spec fn pattern() -> Seq<char> {
        r"^([[:word:]]+)_(?P<year>\d{4})(?P<month>\d{2})(?P<day>\d{2})_(?P<hour>\d{2})(?P<minute>\d{2})(?P<second>\d{2}).jpg$"@
    }

    /// The image at `path` that was taken at the time `seconds`, if that is a
    /// time at which an image can be taken.
    pub open spec fn at(path: Seq<char>, seconds: Option<int>) -> Result<ImageView, Seq<char>> {
        match seconds {
            Some(seconds) => if -MAX_TIMESTAMP <= seconds <= MAX_TIMESTAMP {
                Ok(ImageView { datetime: seconds as i64, path })
            } else {
                Err(path)
            },
            None => Err(path),
        }
    }

    /// The image at `path` that was taken at the time in `fields`.
    pub open spec fn of_fields(path: Seq<char>, fields: Option<DateFields>) -> Result<
        ImageView,
        Seq<char>,
    > {
        match fields {
            Some(fields) => Image::at(path, fields.timestamp()),
            None => Err(path),
        }
    }

    /// The image at `path` whose file name is `name`.
    pub open spec fn of_file_name(path: Seq<char>, name: Seq<char>) -> Result<
        ImageView,
        Seq<char>,
    > {
        Image::of_fields(path, DateFields::of_captures(regex_captures(Image::pattern(), name)))
    }

    /// The view of the outcome of making an image.
    pub open spec fn result_view(r: Result<Image, InvalidFileName>) -> Result<ImageView, Seq<char>> {
        match r {
            Ok(image) => Ok(image@),
            Err(e) => Err(e.0@),
        }
    }

    /// Makes the image at `path` that was taken at the time `seconds`.
    pub fn with_timestamp(path: &str, seconds: Option<i64>) -> (r: Result<Image, InvalidFileName>)
        ensures
            Image::result_view(r) == Image::at(
                path@,
                match seconds {
                    Some(seconds) => Some(seconds as int),
                    None => None,
                },
            ),
    {
        match seconds {
            Some(seconds) => if -MAX_TIMESTAMP <= seconds && seconds <= MAX_TIMESTAMP {
                Ok(Image { datetime: seconds, path: path.to_owned() })
            } else {
                Err(InvalidFileName(path.to_owned()))
            },
            None => Err(InvalidFileName(path.to_owned())),
        }
    }

    /// Makes the image at `path` from its file name, which tells when it was taken.
    pub fn from_file_name(path: &str, name: &str) -> (r: Result<Image, InvalidFileName>)
        ensures
            Image::result_view(r) == Image::of_file_name(path@, name@),
    {
        let groups: Option<Vec<Option<String>>> = captures(
            r"^([[:word:]]+)_(?P<year>\d{4})(?P<month>\d{2})(?P<day>\d{2})_(?P<hour>\d{2})(?P<minute>\d{2})(?P<second>\d{2}).jpg$",
            name,
        );
        match DateFields::from_captures(&groups) {
            Some(fields) => Image::with_timestamp(path, fields.to_timestamp()),
            None => Err(InvalidFileName(path.to_owned())),
        }
    }

    /// Creates an image from a path on the filesystem.
    ///
    /// The image is the one that `from_file_name` makes of the last component
    /// of the path.
    pub fn from_path(path: &str) -> (r: Result<Image, InvalidFileName>)
        ensures
            match r {
                Ok(image) => image@.path == path@ && image@.wf(),
                Err(e) => e.0@ == path@,
            },
    {
        let name: String = file_name(path);
        Image::from_file_name(path, name.as_str())
    }

    /// Returns this image's time, in seconds since the Unix epoch.
    pub fn datetime(&self) -> (datetime: i64)
        ensures
            datetime == self@.datetime,
            self@.wf(),
    {
        proof {
            use_type_invariant(self);
        }
        self.datetime
    }

    /// Returns this image's path.
    pub fn path(&self) -> (path: &str)
        ensures
            path@ == self@.path,
    {
        self.path.as_str()
    }
}

} // verus!
