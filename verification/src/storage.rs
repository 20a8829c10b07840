//! Object storage: folders, upload descriptors, object keys, content types,
//! public URLs, and images sent as `data:` URLs.
use vstd::prelude::*;
use base64::Engine;
use crate::text::{chars_of, concat, find_from, find_in, has_prefix, owned, starts_with, str_eq, string_from};
use crate::uuid_text::{is_uuid_v4, new_uuid_v4, uuid_text, uuid_to_string};

verus! {

broadcast use vstd::string::group_string_axioms;

/// The folder an image is stored in.
#[derive(Debug, Clone, Copy, PartialEq, Eq, Structural, Hash)]
pub enum ImageFolder {
    Generated,
    Uploads,
    Avatars,
    Thumbnails,
    Temp,
}

/// The name of an image folder.
pub open spec fn image_folder_name(f: ImageFolder) -> Seq<char> {
    match f {
        ImageFolder::Generated => "generated"@,
        ImageFolder::Uploads => "uploads"@,
        ImageFolder::Avatars => "avatars"@,
        ImageFolder::Thumbnails => "thumbnails"@,
        ImageFolder::Temp => "temp"@,
    }
}

impl ImageFolder {
    /// The folder's name.
    pub fn as_str(&self) -> (r: &'static str)
        ensures
            r@ == image_folder_name(*self),
    {
        match self {
            ImageFolder::Generated => "generated",
            ImageFolder::Uploads => "uploads",
            ImageFolder::Avatars => "avatars",
            ImageFolder::Thumbnails => "thumbnails",
            ImageFolder::Temp => "temp",
        }
    }

    /// The folder's path: `images/<name>`.
    pub fn path(&self) -> (r: String)
        ensures
            r@ == "images/"@ + image_folder_name(*self),
    {
        concat("images/", self.as_str())
    }
}

impl Default for ImageFolder {
    fn default() -> (r: Self)
        ensures
            r == ImageFolder::Generated,
    {
        ImageFolder::Generated
    }
}

/// An image to upload: its folder, file extension and bytes.
#[derive(Debug, Clone)]
pub struct ImageUpload {
    pub folder: ImageFolder,
    pub file_extension: String,
    pub data: Vec<u8>,
}

/// Why a `data:` URL is not an image.
#[derive(Debug, Clone, Copy, PartialEq, Eq, Structural)]
pub enum UploadError {
    /// The text does not start with `data:image/`.
    InvalidDataUrl,
    /// No `;base64,` follows the image type.
    InvalidBase64DataUrl,
    /// The payload is not valid base64.
    DecodeFailed,
}

/// The image type and base64 payload of a `data:image/<type>;base64,<payload>` URL.
pub open spec fn data_url_parts(s: Seq<char>) -> Result<(Seq<char>, Seq<char>), UploadError> {
    if !has_prefix(s, "data:image/"@) {
        Err(UploadError::InvalidDataUrl)
    } else {
        let content = s.skip("data:image/"@.len() as int);
        match find_from(content, ";base64,"@, 0) {
            Some(k) => Ok((content.take(k), content.skip(k + ";base64,"@.len()))),
            None => Err(UploadError::InvalidBase64DataUrl),
        }
    }
}

/// What the standard base64 engine (with padding) decodes from `s`, if `s` is valid.
pub uninterp spec fn base64_decoded(s: Seq<char>) -> Option<Seq<u8>>;

/// The standard base64 engine of the `base64` crate decoding `s`: the bytes,
/// or its error when `s` is not valid padded base64.
#[verifier::external_body]
fn base64_decode(s: &str) -> (r: Result<Vec<u8>, base64::DecodeError>)
    ensures
        match r {
            Ok(b) => base64_decoded(s@) == Some(b@),
            Err(_) => base64_decoded(s@) is None,
        },
{
    base64::engine::general_purpose::STANDARD.decode(s)
}

#[verifier::external_type_specification]
#[verifier::external_body]
pub struct ExDecodeError(base64::DecodeError);

/// Splits a `data:image/<type>;base64,<payload>` URL into the image type and
/// the payload.
pub fn split_data_url(s: &str) -> (r: Result<(String, String), UploadError>)
    ensures
        match r {
            Ok((t, p)) => data_url_parts(s@) == Ok::<(Seq<char>, Seq<char>), UploadError>((t@, p@)),
            Err(e) => data_url_parts(s@) == Err::<(Seq<char>, Seq<char>), UploadError>(e),
        },
{
    let cs = chars_of(s);
    let head = chars_of("data:image/");
    if !starts_with(cs.as_slice(), head.as_slice()) {
        return Err(UploadError::InvalidDataUrl);
    }
    let content = string_from(cs.as_slice(), head.len(), cs.len());
    let cv = chars_of(content.as_str());
    let sep = chars_of(";base64,");
    match find_in(cv.as_slice(), sep.as_slice(), 0) {
        Some(k) => {
            proof {
                crate::text::lemma_find_from(cv@, sep@, 0);
            }
            let t = string_from(cv.as_slice(), 0, k);
            let p = string_from(cv.as_slice(), k + sep.len(), cv.len());
            Ok((t, p))
        },
        None => Err(UploadError::InvalidBase64DataUrl),
    }
}

/// The `<folder path>/<id>.<extension>` key of an object.
pub open spec fn object_key(path: Seq<char>, id: u128, ext: Seq<char>) -> Seq<char> {
    path + "/"@ + uuid_text(id) + "."@ + ext
}

/// `<path>/<id>.<ext>`.
fn key_for(path: &str, id: u128, ext: &str) -> (r: String)
    ensures
        r@ == object_key(path@, id, ext@),
{
    let a = concat(path, "/");
    let b = concat(a.as_str(), uuid_to_string(id).as_str());
    let c = concat(b.as_str(), ".");
    concat(c.as_str(), ext)
}

impl ImageUpload {
    /// An upload of `data` with the given extension into `folder`.
    pub fn new(folder: ImageFolder, file_extension: String, data: Vec<u8>) -> (r: Self)
        ensures
            r.folder == folder,
            r.file_extension == file_extension,
            r.data == data,
    {
        ImageUpload { folder, file_extension, data }
    }

    /// An upload from a `data:image/<type>;base64,<payload>` URL: the type is
    /// the extension and the decoded payload the bytes.
    pub fn from_base64(folder: ImageFolder, base64_data: &str) -> (r: Result<Self, UploadError>)
        ensures
            match data_url_parts(base64_data@) {
                Err(e) => r == Err::<Self, UploadError>(e),
                Ok((t, p)) => match base64_decoded(p) {
                    None => r == Err::<Self, UploadError>(UploadError::DecodeFailed),
                    Some(bytes) => r matches Ok(u) && u.folder == folder && u.file_extension@ == t && u.data@ == bytes,
                },
            },
    {
        match split_data_url(base64_data) {
            Err(e) => Err(e),
            Ok((ext, payload)) => match base64_decode(payload.as_str()) {
                Ok(data) => Ok(Self::new(folder, ext, data)),
                Err(_) => Err(UploadError::DecodeFailed),
            },
        }
    }

    /// The object key for this upload under the identifier `file_id`.
    pub fn key_with_id(&self, file_id: u128) -> (r: String)
        ensures
            r@ == object_key("images/"@ + image_folder_name(self.folder), file_id, self.file_extension@),
    {
        key_for(self.folder.path().as_str(), file_id, self.file_extension.as_str())
    }

    /// A fresh object key: the folder path, a random (version 4) identifier
    /// and the extension; `None` when the random source fails.
    pub fn key(&self) -> (r: Option<String>)
        ensures
            r matches Some(k) ==> exists|id: u128| is_uuid_v4(id) && k@ == #[trigger] object_key("images/"@ + image_folder_name(self.folder), id, self.file_extension@),
    {
        match new_uuid_v4() {
            Some(id) => Some(self.key_with_id(id)),
            None => None,
        }
    }

    /// The content type: `image/<extension>`.
    pub fn content_type(&self) -> (r: String)
        ensures
            r@ == "image/"@ + self.file_extension@,
    {
        concat("image/", self.file_extension.as_str())
    }
}

/// The folder an audio file is stored in.
#[derive(Debug, Clone, Copy, PartialEq, Eq, Structural, Hash)]
pub enum AudioFolder {
    Generated,
    Uploads,
    Temp,
}

/// The name of an audio folder.
pub open spec fn audio_folder_name(f: AudioFolder) -> Seq<char> {
    match f {
        AudioFolder::Generated => "generated"@,
        AudioFolder::Uploads => "uploads"@,
        AudioFolder::Temp => "temp"@,
    }
}

impl AudioFolder {
    /// The folder's name.
    pub fn as_str(&self) -> (r: &'static str)
        ensures
            r@ == audio_folder_name(*self),
    {
        match self {
            AudioFolder::Generated => "generated",
            AudioFolder::Uploads => "uploads",
            AudioFolder::Temp => "temp",
        }
    }

    /// The folder's path: `audio/<name>`.
    pub fn path(&self) -> (r: String)
        ensures
            r@ == "audio/"@ + audio_folder_name(*self),
    {
        concat("audio/", self.as_str())
    }
}

impl Default for AudioFolder {
    fn default() -> (r: Self)
        ensures
            r == AudioFolder::Generated,
    {
        AudioFolder::Generated
    }
}

/// An audio file to upload: its folder, file extension and bytes.
#[derive(Debug, Clone)]
pub struct AudioUpload {
    pub folder: AudioFolder,
    pub file_extension: String,
    pub data: Vec<u8>,
}

impl AudioUpload {
    /// An upload of `data` with the given extension into `folder`.
    pub fn new(folder: AudioFolder, file_extension: String, data: Vec<u8>) -> (r: Self)
        ensures
            r.folder == folder,
            r.file_extension == file_extension,
            r.data == data,
    {
        AudioUpload { folder, file_extension, data }
    }

    /// The object key for this upload under the identifier `file_id`.
    pub fn key_with_id(&self, file_id: u128) -> (r: String)
        ensures
            r@ == object_key("audio/"@ + audio_folder_name(self.folder), file_id, self.file_extension@),
    {
        key_for(self.folder.path().as_str(), file_id, self.file_extension.as_str())
    }

    /// A fresh object key: the folder path, a random (version 4) identifier
    /// and the extension; `None` when the random source fails.
    pub fn key(&self) -> (r: Option<String>)
        ensures
            r matches Some(k) ==> exists|id: u128| is_uuid_v4(id) && k@ == #[trigger] object_key("audio/"@ + audio_folder_name(self.folder), id, self.file_extension@),
    {
        match new_uuid_v4() {
            Some(id) => Some(self.key_with_id(id)),
            None => None,
        }
    }

    /// The content type: `audio/<extension>` (the known formats `mp3`, `wav`,
    /// `opus` and `pcm` map to the same form as any other extension).
    pub fn content_type(&self) -> (r: String)
        ensures
            r@ == "audio/"@ + self.file_extension@,
    {
        let ext = self.file_extension.as_str();
        if str_eq(ext, "mp3") {
            proof {
                reveal_strlit("mp3");
                reveal_strlit("audio/mp3");
                reveal_strlit("audio/");
            }
            owned("audio/mp3")
        } else if str_eq(ext, "wav") {
            proof {
                reveal_strlit("wav");
                reveal_strlit("audio/wav");
                reveal_strlit("audio/");
            }
            owned("audio/wav")
        } else if str_eq(ext, "opus") {
            proof {
                reveal_strlit("opus");
                reveal_strlit("audio/opus");
                reveal_strlit("audio/");
            }
            owned("audio/opus")
        } else if str_eq(ext, "pcm") {
            proof {
                reveal_strlit("pcm");
                reveal_strlit("audio/pcm");
                reveal_strlit("audio/");
            }
            owned("audio/pcm")
        } else {
            concat("audio/", ext)
        }
    }
}

/// The audio formats of the speech service.
#[derive(Debug, Clone, Copy, PartialEq, Eq, Structural)]
pub enum AudioFormat {
    Wav,
    Pcm,
    Mp3,
    Opus,
}

/// The latency modes of the speech service.
#[derive(Debug, Clone, Copy, PartialEq, Eq, Structural)]
pub enum Latency {
    Normal,
    Balanced,
}

/// A reference recording and its transcript.
#[derive(Debug, Clone)]
pub struct ReferenceAudio {
    pub audio: Vec<u8>,
    pub text: String,
}

/// The file extension of an audio format.
pub open spec fn audio_extension(f: AudioFormat) -> Seq<char> {
    match f {
        AudioFormat::Mp3 => "mp3"@,
        AudioFormat::Wav => "wav"@,
        AudioFormat::Pcm => "pcm"@,
        AudioFormat::Opus => "opus"@,
    }
}

/// The file extension of generated audio in `format` (MP3 when none is given).
pub fn audio_file_extension(format: Option<AudioFormat>) -> (r: &'static str)
    ensures
        r@ == audio_extension(match format { Some(f) => f, None => AudioFormat::Mp3 }),
{
    let f = match format {
        Some(f) => f,
        None => AudioFormat::Mp3,
    };
    match f {
        AudioFormat::Mp3 => "mp3",
        AudioFormat::Wav => "wav",
        AudioFormat::Pcm => "pcm",
        AudioFormat::Opus => "opus",
    }
}

/// The upload descriptor of generated speech: into the generated folder, with
/// the format's extension.
pub fn speech_upload(format: Option<AudioFormat>, audio_data: Vec<u8>) -> (r: AudioUpload)
    ensures
        r.folder == AudioFolder::Generated,
        r.file_extension@ == audio_extension(match format { Some(f) => f, None => AudioFormat::Mp3 }),
        r.data == audio_data,
{
    AudioUpload::new(AudioFolder::Generated, owned(audio_file_extension(format)), audio_data)
}

/// The storage bucket's public addressing: the bucket's name and, when set,
/// the public domain that serves it.
pub struct R2Client {
    pub bucket_name: String,
    pub public_domain: Option<String>,
}

/// The domain objects are served from: the configured one, else `<bucket>.r2.dev`.
pub open spec fn public_domain_of(c: R2Client) -> Seq<char> {
    match c.public_domain {
        Some(d) => d@,
        None => c.bucket_name@ + ".r2.dev"@,
    }
}

impl R2Client {
    /// The bucket's name.
    pub fn bucket_name(&self) -> (r: String)
        ensures
            r@ == self.bucket_name@,
    {
        self.bucket_name.clone()
    }

    /// The domain objects are served from.
    pub fn public_domain(&self) -> (r: String)
        ensures
            r@ == public_domain_of(*self),
    {
        match &self.public_domain {
            Some(d) => d.clone(),
            None => concat(self.bucket_name.as_str(), ".r2.dev"),
        }
    }

    /// The public URL of an object: `https://<domain>/<bucket>/<key>`.
    pub fn public_url(&self, key: &str) -> (r: String)
        ensures
            r@ == "https://"@ + public_domain_of(*self) + "/"@ + self.bucket_name@ + "/"@ + key@,
    {
        let a = concat("https://", self.public_domain().as_str());
        let b = concat(a.as_str(), "/");
        let c = concat(b.as_str(), self.bucket_name.as_str());
        let d = concat(c.as_str(), "/");
        concat(d.as_str(), key)
    }
}

} // verus!
