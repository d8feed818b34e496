//! Cover artwork as the store keeps it: the picture, encoded as JPEG and written
//! out in base64.

use crate::decimal::{i8_of, parse_i8};
use crate::text::{trim, trim_str};
use vstd::prelude::*;
use vstd::string::StringExecFns;

verus! {

/// A decoded picture, as the `image` crate holds it.
#[verifier::external_type_specification]
#[verifier::external_body]
pub struct ExDynamicImage(image::DynamicImage);

/// The reason why the `image` crate could not decode or encode a picture.
#[verifier::external_type_specification]
#[verifier::external_body]
pub struct ExImageError(image::ImageError);

/// The base64 text of `bytes` in the standard alphabet, with padding.
pub uninterp spec fn base64_standard(bytes: Seq<u8>) -> Seq<char>;

/// Whether the base64 text of `len` bytes has a length that fits in `usize`.
pub open spec fn base64_fits(len: nat) -> bool {
    len / 3 * 4 + 4 <= usize::MAX
}

/// `Engine::encode` of `base64::engine::general_purpose::STANDARD`: the base64
/// text of `bytes`. It panics where the length of that text overflows `usize`,
/// which `requires` leaves out.
#[verifier::external_body]
fn base64_encode(bytes: &[u8]) -> (text: String)
    requires
        base64_fits(bytes@.len()),
    ensures
        text@ == base64_standard(bytes@),
{
    base64::Engine::encode(&base64::engine::general_purpose::STANDARD, bytes)
}

/// Whether `bytes`, read as a JPEG file, decode to a picture.
pub uninterp spec fn jpeg_decodes(bytes: Seq<u8>) -> bool;

/// `ImageReader::decode` of the `image` crate on `bytes`, read as a JPEG file.
/// Whether a picture comes back depends on the bytes alone. Nothing is claimed
/// of the picture itself, whose samples the decoder computes as the machine
/// allows.
#[verifier::external_body]
fn decode_jpeg(bytes: &[u8]) -> (picture: Result<image::DynamicImage, image::ImageError>)
    ensures
        picture is Ok <==> jpeg_decodes(bytes@),
{
    image::ImageReader::with_format(std::io::Cursor::new(bytes), image::ImageFormat::Jpeg).decode()
}

/// `DynamicImage::write_to` of the `image` crate, into memory and as a JPEG
/// file. Nothing is claimed of the bytes that come back, nor of when none do.
#[verifier::external_body]
fn encode_jpeg(picture: &image::DynamicImage) -> (bytes: Result<Vec<u8>, image::ImageError>) {
    let mut bytes: Vec<u8> = Vec::new();
    let written = picture.write_to(&mut std::io::Cursor::new(&mut bytes), image::ImageFormat::Jpeg);
    written.map(|_| bytes)
}

/// Where the script leaves the picture of the current track.
pub const ARTWORK_PATH: &'static str = "/tmp/current_artwork.jpg";

/// The script up to the path of the picture.
pub const SCRIPT_HEAD: &'static str = "
        set filePath to \"";

/// The script after the path of the picture.
pub const SCRIPT_TAIL: &'static str = "\"
        tell application \"Music\"
			if player state is playing then
				set theTrack to current track
				try
					set artData to data of artwork 1 of theTrack
					set outFile to open for access (POSIX file filePath) with write permission
					set eof of outFile to 0 -- clear existing contents
					write artData to outFile
					close access outFile
					return 0
				on error errMsg
					try
						close access outFile
					end try
					return -1
				end try
			else
				return -1
			end if
		end tell
		";

/// The status that the script prints where it left no picture.
pub const NO_ARTWORK_STATUS: i8 = -1;

/// The script that writes the picture of the current track to `ARTWORK_PATH`
/// and prints its status.
pub fn get_script() -> (script: String)
    ensures
        script@ == SCRIPT_HEAD@ + ARTWORK_PATH@ + SCRIPT_TAIL@,
{
    let mut script = String::from_str(SCRIPT_HEAD);
    script.append(ARTWORK_PATH);
    script.append(SCRIPT_TAIL);
    script
}

/// Why no artwork could be made.
#[derive(Debug, Clone, Copy, PartialEq, Eq, Structural)]
pub enum ArtworkError {
    /// What the script printed is no status.
    UnreadableStatus,
    /// The script reported that it left no picture.
    NoArtwork,
    /// The bytes are no JPEG picture.
    UndecodablePicture,
    /// The picture cannot be written as JPEG.
    UnencodablePicture,
    /// The picture is too large for its text to be held.
    TooLarge,
}

/// What the output of the script says: the status it printed, read as a signed
/// byte once the white space around it is dropped.
pub open spec fn status_of(output: Seq<char>) -> Result<(), ArtworkError> {
    match i8_of(trim(output)) {
        None => Err(ArtworkError::UnreadableStatus),
        Some(status) => if status == NO_ARTWORK_STATUS {
            Err(ArtworkError::NoArtwork)
        } else {
            Ok(())
        },
    }
}

/// The artwork of one piece of media, as base64 text.
#[derive(Debug)]
pub struct Artwork(String);

impl View for Artwork {
    type V = Seq<char>;

    closed spec fn view(&self) -> Seq<char> {
        self.0@
    }
}

impl Clone for Artwork {
    fn clone(&self) -> (copy: Self)
        ensures
            copy == *self,
    {
        Artwork(self.0.clone())
    }
}

impl Default for Artwork {
    fn default() -> (artwork: Self)
        ensures
            artwork@ == Seq::<char>::empty(),
    {
        Artwork(String::new())
    }
}

impl Artwork {
    /// The artwork whose text is `encoded`.
    pub fn new(encoded: String) -> (artwork: Self)
        ensures
            artwork@ == encoded@,
    {
        Artwork(encoded)
    }

    /// The text of the artwork.
    pub fn get_string(&self) -> (text: String)
        ensures
            text@ == self@,
    {
        self.0.clone()
    }

    /// Reads what the script printed: `Ok` where it reports a picture.
    pub fn check_status(output: &str) -> (result: Result<(), ArtworkError>)
        ensures
            result == status_of(output@),
    {
        match parse_i8(trim_str(output)) {
            None => Err(ArtworkError::UnreadableStatus),
            Some(status) => if status == NO_ARTWORK_STATUS {
                Err(ArtworkError::NoArtwork)
            } else {
                Ok(())
            },
        }
    }

    /// The artwork of a picture given as the bytes of its JPEG file.
    ///
    /// Fails exactly where the text of that many bytes has no length in `usize`.
    pub fn from_jpeg(jpeg: &[u8]) -> (result: Result<Artwork, ArtworkError>)
        ensures
            match result {
                Ok(artwork) => base64_fits(jpeg@.len()) && artwork@ == base64_standard(jpeg@),
                Err(e) => !base64_fits(jpeg@.len()) && e == ArtworkError::TooLarge,
            },
    {
        if jpeg.len() / 3 > (usize::MAX - 4) / 4 {
            return Err(ArtworkError::TooLarge);
        }
        Ok(Artwork(base64_encode(jpeg)))
    }

    /// The artwork of a picture given as the bytes of a JPEG file: the picture is
    /// decoded, written anew as JPEG, and that file is put in base64.
    ///
    /// Fails with `UndecodablePicture` exactly on bytes that do not decode. What
    /// bytes that decode are written as is for the encoder to say: what comes
    /// back is the text of some file, or the later step that failed.
    pub fn from_image_bytes(bytes: &[u8]) -> (result: Result<Artwork, ArtworkError>)
        ensures
            match result {
                Ok(artwork) => jpeg_decodes(bytes@) && exists|jpeg: Seq<u8>|
                    base64_fits(jpeg.len()) && artwork@ == #[trigger] base64_standard(jpeg),
                Err(e) => if jpeg_decodes(bytes@) {
                    e == ArtworkError::UnencodablePicture || e == ArtworkError::TooLarge
                } else {
                    e == ArtworkError::UndecodablePicture
                },
            },
    {
        let picture = match decode_jpeg(bytes) {
            Ok(picture) => picture,
            Err(_) => {
                return Err(ArtworkError::UndecodablePicture);
            },
        };
        let jpeg = match encode_jpeg(&picture) {
            Ok(jpeg) => jpeg,
            Err(_) => {
                return Err(ArtworkError::UnencodablePicture);
            },
        };
        Artwork::from_jpeg(jpeg.as_slice())
    }
}

} // verus!
