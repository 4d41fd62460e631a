//! The fields of an upload and what stands in for the ones left out.

use vstd::prelude::*;
use vstd::string::StringExecFns;
use crate::names::decimal;
use crate::numerals::{after_first, digits_value, lemma_decimal_reads_back, numeral};

verus! {

/// What reading a whole number from a text comes to: after a sign, if the
/// text begins with `+` or `-`, there must be a numeral and nothing else,
/// and the number it stands for, negated after `-`, must fit in 64 bits.
pub open spec fn parsed_i64(text: Seq<char>) -> Option<i64> {
    let signed = text.len() > 0 && (text[0] == '+' || text[0] == '-');
    let digits = if signed {
        after_first(text)
    } else {
        text
    };
    let value = if signed && text[0] == '-' {
        -(digits_value(digits) as int)
    } else {
        digits_value(digits) as int
    };
    if numeral(digits) && i64::MIN <= value <= i64::MAX {
        Some(value as i64)
    } else {
        None
    }
}

/// Calls `str::parse::<i64>`.  Trusted: it accepts an optional `+` or `-`
/// followed by one or more decimal digits and nothing else, and gives the
/// number the digits spell, negated after `-`, where that fits in 64 bits;
/// everything else is an error.
#[verifier::external_body]
fn parse_i64(text: &str) -> (number: Option<i64>)
    ensures
        number == parsed_i64(text@),
{
    text.parse::<i64>().ok()
}

/// The part a field of an upload plays, by its name.
#[derive(Clone, Copy, Debug, PartialEq, Eq, Structural)]
pub enum UploadField {
    /// The bytes of the video.
    File,
    Filename,
    Duration,
    CreatedAt,
    UserId,
    /// A field the upload has no use for.
    Other,
}

pub open spec fn upload_field_of(name: Seq<char>) -> UploadField {
    if name == "file"@ {
        UploadField::File
    } else if name == "filename"@ {
        UploadField::Filename
    } else if name == "duration"@ {
        UploadField::Duration
    } else if name == "created_at"@ {
        UploadField::CreatedAt
    } else if name == "user_id"@ {
        UploadField::UserId
    } else {
        UploadField::Other
    }
}

fn same_text(a: &str, b: &str) -> (same: bool)
    ensures
        same == (a@ == b@),
{
    let a = a.to_owned();
    let b = b.to_owned();
    a == b
}

/// The part the field called `name` plays.
pub fn upload_field(name: &str) -> (field: UploadField)
    ensures
        field == upload_field_of(name@),
{
    if same_text(name, "file") {
        UploadField::File
    } else if same_text(name, "filename") {
        UploadField::Filename
    } else if same_text(name, "duration") {
        UploadField::Duration
    } else if same_text(name, "created_at") {
        UploadField::CreatedAt
    } else if same_text(name, "user_id") {
        UploadField::UserId
    } else {
        UploadField::Other
    }
}

/// The text fields of an upload, as far as they have come in.
#[derive(Debug, PartialEq, Eq)]
pub struct UploadForm {
    pub filename: Option<String>,
    pub duration: Option<String>,
    pub created_at: Option<String>,
    pub user_id: Option<String>,
}

/// `UploadForm`, with its texts as sequences.
pub struct UploadFormView {
    pub filename: Option<Seq<char>>,
    pub duration: Option<Seq<char>>,
    pub created_at: Option<Seq<char>>,
    pub user_id: Option<Seq<char>>,
}

pub open spec fn text_view(text: Option<String>) -> Option<Seq<char>> {
    match text {
        Some(t) => Some(t@),
        None => None,
    }
}

impl View for UploadForm {
    type V = UploadFormView;

    open spec fn view(&self) -> UploadFormView {
        UploadFormView {
            filename: text_view(self.filename),
            duration: text_view(self.duration),
            created_at: text_view(self.created_at),
            user_id: text_view(self.user_id),
        }
    }
}

impl UploadFormView {
    pub open spec fn empty() -> UploadFormView {
        UploadFormView { filename: None, duration: None, created_at: None, user_id: None }
    }

    /// The form with the value of one more field: a text field takes the
    /// value, replacing what came before under the same name; the file and
    /// fields of no use leave the form as it is.
    pub open spec fn with_field(self, field: UploadField, value: Seq<char>) -> UploadFormView {
        match field {
            UploadField::Filename => UploadFormView { filename: Some(value), ..self },
            UploadField::Duration => UploadFormView { duration: Some(value), ..self },
            UploadField::CreatedAt => UploadFormView { created_at: Some(value), ..self },
            UploadField::UserId => UploadFormView { user_id: Some(value), ..self },
            UploadField::File => self,
            UploadField::Other => self,
        }
    }
}

impl UploadForm {
    /// A form with no field yet.
    pub fn new() -> (form: UploadForm)
        ensures
            form@ == UploadFormView::empty(),
    {
        UploadForm { filename: None, duration: None, created_at: None, user_id: None }
    }

    /// Takes the value of one more field.
    pub fn set(&mut self, field: UploadField, value: String)
        ensures
            final(self)@ == old(self)@.with_field(field, value@),
    {
        match field {
            UploadField::Filename => {
                self.filename = Some(value);
            },
            UploadField::Duration => {
                self.duration = Some(value);
            },
            UploadField::CreatedAt => {
                self.created_at = Some(value);
            },
            UploadField::UserId => {
                self.user_id = Some(value);
            },
            UploadField::File => {},
            UploadField::Other => {},
        }
    }
}

/// The duration an upload states, in seconds: zero where it states none or
/// none that reads as a number.
pub open spec fn duration_stated(text: Option<Seq<char>>) -> i64 {
    match text {
        Some(t) => match parsed_i64(t) {
            Some(seconds) => seconds,
            None => 0,
        },
        None => 0,
    }
}

/// The duration an upload states, in seconds.
pub fn duration_seconds(text: Option<&str>) -> (seconds: i64)
    ensures
        seconds == duration_stated(
            match text {
                Some(t) => Some(t@),
                None => None,
            },
        ),
{
    match text {
        Some(t) => match parse_i64(t) {
            Some(seconds) => seconds,
            None => 0,
        },
        None => 0,
    }
}

/// The user an upload is filed under: the one it names, or `anonymous`.
pub fn uploader(user_id: Option<String>) -> (user: String)
    ensures
        user@ == match user_id {
            Some(id) => id@,
            None => "anonymous"@,
        },
{
    match user_id {
        Some(id) => id,
        None => "anonymous".to_owned(),
    }
}

/// The path a video is stored under: the file name the upload gives, or
/// `fresh` with the extension `.mp4` where it gives none.
pub fn video_path(filename: Option<String>, fresh: &str) -> (path: String)
    ensures
        path@ == match filename {
            Some(name) => name@,
            None => fresh@ + ".mp4"@,
        },
{
    match filename {
        Some(name) => name,
        None => fresh.to_owned().concat(".mp4"),
    }
}

/// The name a blob is stored under when the request gives none.
pub fn default_blob_name() -> (name: String)
    ensures
        name@ == "video.mp4"@,
{
    "video.mp4".to_owned()
}

/// A duration written out in decimal digits reads back as that duration.
pub proof fn lemma_written_duration_reads_back(seconds: i64)
    requires
        seconds >= 0,
    ensures
        duration_stated(Some(decimal(seconds as nat))) == seconds,
{
    lemma_decimal_reads_back(seconds as nat);
}

} // verus!
