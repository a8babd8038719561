//! What can go wrong while a renderer of particles is made.

use image::error::ImageError;
use std::io;
use vstd::prelude::*;
use vstd::std_specs::convert::FromSpecImpl;

verus! {

/// `std::io::Error`, the error of reading a file.  Nothing is known of what
/// it holds.
#[verifier::external_type_specification]
#[verifier::external_body]
pub struct ExIoError(io::Error);

/// `image::error::ImageError`, the error of decoding a picture.  Nothing is
/// known of what it holds.
#[verifier::external_type_specification]
#[verifier::external_body]
pub struct ExImageError(ImageError);

pub type BrumousResult<T> = Result<T, BrumousError>;

#[derive(Debug)]
pub enum BrumousError {
    /// A file could not be read.
    FileError(io::Error),
    /// A whole number in the file of this path, on this line, is malformed.
    ParseInt(String, usize),
    /// A number in the file of this path, on this line, is malformed.
    ParseFloat(String, usize),
    /// The vertex data in the file of this path, on this line, is malformed.
    InvalidVertexData(String, usize),
    /// The texture at this path could not be read.
    OpenTexture(String, io::Error),
    /// The texture at this path could not be decoded.
    LoadTexture(String, ImageError),
    /// There is no light of this index among this many lights.
    InvalidLightIndex(u64, u64),
    /// A pool of this many particles is more than a draw can count.
    TooManyParticles(usize),
}

impl From<io::Error> for BrumousError {
    fn from(err: io::Error) -> (e: Self) {
        Self::FileError(err)
    }
}

impl FromSpecImpl<io::Error> for BrumousError {
    open spec fn obeys_from_spec() -> bool {
        true
    }

    open spec fn from_spec(err: io::Error) -> Self {
        BrumousError::FileError(err)
    }
}

/// `String::push_str` appends a text to a string.
pub assume_specification[ String::push_str ](s: &mut String, text: &str)
    ensures
        final(s)@ == old(s)@ + text@,
;

/// `String::push` appends a character to a string.
pub assume_specification[ String::push ](s: &mut String, c: char)
    ensures
        final(s)@ == old(s)@.push(c),
;

/// The character of a digit.
pub open spec fn digit_char(d: nat) -> char {
    (('0' as nat) + d) as char
}

/// The decimal digits of a number, without leading zeros.
pub open spec fn decimal(n: nat) -> Seq<char>
    decreases n,
{
    if n < 10 {
        seq![digit_char(n)]
    } else {
        decimal(n / 10).push(digit_char(n % 10))
    }
}

/// Appends the decimal digits of `n` to `s`.
pub fn push_decimal(s: &mut String, n: u64)
    ensures
        final(s)@ == old(s)@ + decimal(n as nat),
    decreases n,
{
    if n >= 10 {
        push_decimal(s, n / 10);
    }
    let d: u8 = (n % 10) as u8;
    s.push((48u8 + d) as char);
    proof {
        assert('0' as nat == 48);
        assert(((48u8 + d) as char) == digit_char((n % 10) as nat));
        if n >= 10 {
            assert(s@ =~= old(s)@ + decimal((n / 10) as nat).push(digit_char((n % 10) as nat)));
        } else {
            assert(s@ =~= old(s)@ + seq![digit_char(n as nat)]);
        }
    }
}

/// How a message begins, and how it goes on after a break: on a line of its
/// own, behind the margin.
pub open spec fn margin() -> Seq<char> {
    "\n                    \r"@
}

impl BrumousError {
    /// What the message says behind the margin, up to the text of the error
    /// that it wraps, if it wraps one.
    pub open spec fn spec_message(self) -> Seq<char> {
        match self {
            BrumousError::FileError(_) => margin(),
            BrumousError::ParseInt(path, line) => margin() + "Error parsing int on line "@ + decimal(
                line as nat,
            ) + " of file "@ + path@,
            BrumousError::ParseFloat(path, line) => margin() + "Error parsing float on line "@
                + decimal(line as nat) + " of file "@ + path@,
            BrumousError::InvalidVertexData(path, line) => margin() + "Invalid vertex data: line "@
                + decimal(line as nat) + " of file "@ + path@,
            BrumousError::OpenTexture(path, _) => margin() + "Error opening file "@ + path@ + ":"@
                + margin(),
            BrumousError::LoadTexture(path, _) => margin() + "Error loading texture "@ + path@
                + ":"@ + margin(),
            BrumousError::InvalidLightIndex(idx, max) => margin() + "Invalid light index "@
                + decimal(idx as nat) + " of "@ + decimal(max as nat) + " lights"@,
            BrumousError::TooManyParticles(max) => margin() + "Too many particles: "@ + decimal(
                max as nat,
            ),
        }
    }

    /// Whether the error wraps the error of reading a file or of decoding a
    /// picture, whose text ends the message.
    pub open spec fn wraps(self) -> bool {
        self is FileError || self is OpenTexture || self is LoadTexture
    }

    /// The message of the error: `spec_message`, and behind it the text of
    /// the error that it wraps, if it wraps one.
    pub fn message(&self) -> (text: String)
        ensures
            !self.wraps() ==> text@ == self.spec_message(),
            self.wraps() ==> text@.len() >= self.spec_message().len() && text@.take(
                self.spec_message().len() as int,
            ) == self.spec_message(),
    {
        let mut text = String::new();
        text.push_str("\n                    \r");
        match self {
            BrumousError::FileError(err) => {
                let wrapped: String = io_error_text(err);
                text.push_str(wrapped.as_str());
                assert(text@.take(margin().len() as int) =~= margin());
            },
            BrumousError::ParseInt(path, line) => {
                text.push_str("Error parsing int on line ");
                push_decimal(&mut text, *line as u64);
                text.push_str(" of file ");
                text.push_str(path.as_str());
            },
            BrumousError::ParseFloat(path, line) => {
                text.push_str("Error parsing float on line ");
                push_decimal(&mut text, *line as u64);
                text.push_str(" of file ");
                text.push_str(path.as_str());
            },
            BrumousError::InvalidVertexData(path, line) => {
                text.push_str("Invalid vertex data: line ");
                push_decimal(&mut text, *line as u64);
                text.push_str(" of file ");
                text.push_str(path.as_str());
            },
            BrumousError::OpenTexture(path, err) => {
                text.push_str("Error opening file ");
                text.push_str(path.as_str());
                text.push_str(":");
                text.push_str("\n                    \r");
                let ghost head = text@;
                let wrapped: String = io_error_text(err);
                text.push_str(wrapped.as_str());
                assert(text@.take(head.len() as int) =~= head);
            },
            BrumousError::LoadTexture(path, err) => {
                text.push_str("Error loading texture ");
                text.push_str(path.as_str());
                text.push_str(":");
                text.push_str("\n                    \r");
                let ghost head = text@;
                let wrapped: String = image_error_text(err);
                text.push_str(wrapped.as_str());
                assert(text@.take(head.len() as int) =~= head);
            },
            BrumousError::InvalidLightIndex(idx, max) => {
                text.push_str("Invalid light index ");
                push_decimal(&mut text, *idx);
                text.push_str(" of ");
                push_decimal(&mut text, *max);
                text.push_str(" lights");
            },
            BrumousError::TooManyParticles(max) => {
                text.push_str("Too many particles: ");
                push_decimal(&mut text, *max as u64);
            },
        }
        text
    }
}

/// The text of an error of reading a file, as the standard library words
/// it; nothing is known of it.
#[verifier::external_body]
fn io_error_text(err: &io::Error) -> (text: String) {
    err.to_string()
}

/// The text of an error of decoding a picture, as `image` words it; nothing
/// is known of it.
#[verifier::external_body]
fn image_error_text(err: &ImageError) -> (text: String) {
    err.to_string()
}

/// What can be wrong with the arguments that configure the program, or with
/// a file that it is to read.
#[derive(Debug)]
pub enum ConfigError {
    /// There is no file of this path.
    NotFound(String),
    /// This is no number of particles.
    InvalidParticleMax(String),
    /// This is no rate of particles.
    InvalidParticleRate(String),
    /// There is no mesh of this name.
    InvalidParticleMesh(String),
    /// The file of this path may not be read.
    AccessDenied(String),
    /// A file could not be read.
    IoError(io::Error),
}

} // verus!
