//! Uploading files: the media type of a file, guessed from its name by
//! `mime_guess`, and the parts of the form that carries the files.

use crate::account::Telegraph;
use crate::error::Error;
use crate::text::{nat_text, nat_to_string, opt_text};
use vstd::prelude::*;
use vstd::string::*;

verus! {

/// A media type in its parts: `image`, `svg` and `xml` for `image/svg+xml`.
#[derive(Debug, Clone, PartialEq, Eq)]
pub struct MediaType {
    pub kind: String,
    pub subtype: String,
    pub suffix: Option<String>,
}

/// A [`MediaType`] with its texts as sequences of characters.
pub struct MediaTypeView {
    pub kind: Seq<char>,
    pub subtype: Seq<char>,
    pub suffix: Option<Seq<char>>,
}

impl View for MediaType {
    type V = MediaTypeView;

    open spec fn view(&self) -> MediaTypeView {
        MediaTypeView { kind: self.kind@, subtype: self.subtype@, suffix: opt_text(self.suffix) }
    }
}

/// An optional media type by its view.
pub open spec fn media_type_opt_view(guess: Option<MediaType>) -> Option<MediaTypeView> {
    match guess {
        Some(media_type) => Some(media_type@),
        None => None,
    }
}

/// The first media type that `mime_guess` knows for the extension of a path,
/// or `None` where the path has no extension or none that it knows.
pub uninterp spec fn guessed_media_type(path: Seq<char>) -> Option<MediaTypeView>;

/// Calls `mime_guess::from_path` and takes the first guess, if there is one,
/// apart into its type, its subtype and its suffix. The result is what
/// [`guessed_media_type`] names.
#[verifier::external_body]
fn guess_media_type(path: &str) -> (guess: Option<MediaType>)
    ensures
        media_type_opt_view(guess) == guessed_media_type(path@),
{
    mime_guess::from_path(path).first().map(|mime| MediaType {
        kind: mime.type_().as_str().to_owned(),
        subtype: mime.subtype().as_str().to_owned(),
        suffix: mime.suffix().map(|suffix| suffix.as_str().to_owned()),
    })
}

/// A media type as one text: type, a slash, subtype and, where there is a
/// suffix, a plus sign and the suffix.
pub open spec fn media_type_text(media_type: MediaTypeView) -> Seq<char> {
    media_type.kind + "/"@ + media_type.subtype + match media_type.suffix {
        Some(suffix) => "+"@ + suffix,
        None => Seq::empty(),
    }
}

/// The media type to send a file under, given the guess for its path:
/// `text/plain` where there is none.
pub open spec fn mime_text(guess: Option<MediaTypeView>) -> Seq<char> {
    match guess {
        Some(media_type) => media_type_text(media_type),
        None => "text/plain"@,
    }
}

/// The media type to send a file under, given the guess for its path.
pub fn mime_of(guess: &Option<MediaType>) -> (mime: String)
    ensures
        mime@ == mime_text(media_type_opt_view(*guess)),
{
    match guess {
        Some(media_type) => {
            let mut mime = media_type.kind.clone();
            mime.append("/");
            mime.append(media_type.subtype.as_str());
            match &media_type.suffix {
                Some(suffix) => {
                    mime.append("+");
                    mime.append(suffix.as_str());
                    assert(mime@ =~= media_type_text(media_type@));
                },
                None => {
                    assert(mime@ =~= media_type_text(media_type@));
                },
            }
            mime
        },
        None => String::from_str("text/plain"),
    }
}

/// The media type to send the file at `path` under: the one that its
/// extension stands for, or `text/plain` where that is not known.
pub fn guess_mime(path: &str) -> (mime: String)
    ensures
        mime@ == mime_text(guessed_media_type(path@)),
{
    let guess = guess_media_type(path);
    mime_of(&guess)
}

/// A file as it is uploaded: its bytes, its media type and, where it has
/// one, its name.
#[derive(Debug, Clone, PartialEq, Eq)]
pub struct Upload {
    pub bytes: Vec<u8>,
    pub mime: String,
    pub file_name: Option<String>,
}

/// One part of the form that carries the files: a file under its name in
/// the form.
#[derive(Debug, Clone, PartialEq, Eq)]
pub struct FormPart {
    pub name: String,
    pub upload: Upload,
}

/// Whether a form holds the given files in order, each under the numeral of
/// its position.
pub open spec fn is_form_of(form: Seq<FormPart>, files: Seq<Result<Upload, Error>>) -> bool {
    &&& form.len() == files.len()
    &&& forall|i: int|
        0 <= i < files.len() ==> files[i] == Ok::<Upload, Error>((#[trigger] form[i]).upload)
            && form[i].name@ == nat_text(i as nat)
}

/// Whether `at` is the position of the first file that could not be read.
pub open spec fn first_failure(files: Seq<Result<Upload, Error>>, at: int) -> bool {
    &&& 0 <= at < files.len()
    &&& files[at] is Err
    &&& forall|i: int| 0 <= i < at ==> (#[trigger] files[i]) is Ok
}

impl Telegraph {
    /// Where the form that carries the files is posted to.
    pub fn upload_url() -> (url: &'static str)
        ensures
            url@ == "https://telegra.ph/upload"@,
    {
        "https://telegra.ph/upload"
    }

    /// The form that carries the given files: one part for each, in order,
    /// under the numeral of its position. Where a file could not be read
    /// there is no form: the failure of the first such file is handed on.
    pub fn upload_with(files: Vec<Result<Upload, Error>>) -> (r: Result<Vec<FormPart>, Error>)
        ensures
            match r {
                Ok(form) => is_form_of(form@, files@),
                Err(e) => exists|at: int|
                    first_failure(files@, at) && files@[at] == Err::<Upload, Error>(e),
            },
    {
        let mut form: Vec<FormPart> = Vec::new();
        for file in it: files
            invariant
                it.seq() == files@,
                form@.len() == it.index(),
                forall|i: int|
                    0 <= i < it.index() ==> files@[i] == Ok::<Upload, Error>((#[trigger] form@[i]).upload)
                        && form@[i].name@ == nat_text(i as nat),
        {
            match file {
                Ok(upload) => {
                    let name = nat_to_string(form.len() as u64);
                    form.push(FormPart { name, upload });
                },
                Err(e) => {
                    assert(files@[it.index()] == Err::<Upload, Error>(e));
                    assert forall|i: int| 0 <= i < it.index() implies (#[trigger] files@[i]) is Ok by {
                        assert(files@[i] == Ok::<Upload, Error>(form@[i].upload));
                    }
                    assert(first_failure(files@, it.index()));
                    return Err(e);
                },
            }
        }
        Ok(form)
    }
}

} // verus!
