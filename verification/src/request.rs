//! From an upload to a segmentation request.

use vstd::prelude::*;
use vstd::string::StrSliceExecFns;
use crate::text::text_chars;

verus! {

/// Why an upload was turned away. Each of these is the client's fault.
#[derive(Clone, Copy, Debug, PartialEq, Eq, Structural)]
pub enum UploadError {
    /// The uploaded bytes could not be read.
    Unreadable,
    /// The upload carries no file name.
    MissingFileName,
    /// The file name has no extension to take the source format from.
    MissingExtension,
    /// The target format is empty.
    EmptyTargetFormat,
    /// The size cap is zero.
    ZeroSizeCap,
}

/// The uploaded bytes together with the format they claim to be in.
#[derive(Clone, Debug, PartialEq, Eq)]
pub struct MediaBlob {
    pub bytes: Vec<u8>,
    pub format: String,
}

/// What is asked of the segmentation engine.
///
/// Both formats are non-empty, and a size cap, where there is one, is positive.
#[derive(Debug, PartialEq, Eq)]
pub struct SegmentationRequest {
    source: MediaBlob,
    target_format: String,
    max_segment_bytes: Option<u64>,
}

/// A request as a mathematical value.
pub struct RequestView {
    pub source_bytes: Seq<u8>,
    pub source_format: Seq<char>,
    pub target_format: Seq<char>,
    pub max_segment_bytes: Option<u64>,
}

/// What a well-formed request satisfies.
pub open spec fn valid_request(r: RequestView) -> bool {
    &&& r.source_format.len() > 0
    &&& r.target_format.len() > 0
    &&& r.max_segment_bytes != Some(0u64)
}

/// The position of the last `.` in `name`, or `-1` if it has none.
pub open spec fn last_dot(name: Seq<char>) -> int
    decreases name.len(),
{
    if name.len() == 0 {
        -1
    } else if name.last() == '.' {
        name.len() - 1
    } else {
        last_dot(name.drop_last())
    }
}

/// The extension of a file name: what follows its last `.`, if that is anything.
pub open spec fn spec_extension(name: Seq<char>) -> Option<Seq<char>> {
    let dot = last_dot(name);
    if dot < 0 || dot + 1 == name.len() {
        None
    } else {
        Some(name.skip(dot + 1))
    }
}

/// The first fault of a request with these parts, if it has one.
pub open spec fn spec_request_fault(
    source_format: Seq<char>,
    target_format: Seq<char>,
    max_segment_bytes: Option<u64>,
) -> Option<UploadError> {
    if source_format.len() == 0 {
        Some(UploadError::MissingExtension)
    } else if target_format.len() == 0 {
        Some(UploadError::EmptyTargetFormat)
    } else if max_segment_bytes == Some(0u64) {
        Some(UploadError::ZeroSizeCap)
    } else {
        None
    }
}

/// The first fault of an upload, if it has one. `contents` is absent where the
/// uploaded bytes could not be read, `file_name` where the upload names no file.
pub open spec fn spec_upload_fault(
    contents: Option<Seq<u8>>,
    file_name: Option<Seq<char>>,
    target_format: Seq<char>,
    max_segment_bytes: Option<u64>,
) -> Option<UploadError> {
    if contents is None {
        Some(UploadError::Unreadable)
    } else if file_name is None {
        Some(UploadError::MissingFileName)
    } else if spec_extension(file_name->0) is None {
        Some(UploadError::MissingExtension)
    } else {
        spec_request_fault(spec_extension(file_name->0)->0, target_format, max_segment_bytes)
    }
}

/// `last_dot` is a position that holds a `.` with none after it, or `-1` where there is none.
pub proof fn lemma_last_dot(name: Seq<char>, dot: int)
    requires
        -1 <= dot < name.len(),
        dot >= 0 ==> name[dot] == '.',
        forall|i: int| dot < i < name.len() ==> name[i] != '.',
    ensures
        last_dot(name) == dot,
    decreases name.len(),
{
    if name.len() > 0 && dot < name.len() - 1 {
        lemma_last_dot(name.drop_last(), dot);
    }
}

/// The extension of `file_name`: the text after its last `.`. There is none
/// where the name has no `.` or ends in one.
pub fn source_extension(file_name: &str) -> (ext: Option<String>)
    ensures
        match spec_extension(file_name@) {
            Some(e) => ext matches Some(s) && s@ == e,
            None => ext is None,
        },
{
    let chars = text_chars(file_name);
    let n: usize = chars.len();
    let mut i: usize = n;
    while i > 0 && chars[i - 1] != '.'
        invariant
            i <= n,
            n == chars.len(),
            forall|j: int| i <= j < n ==> chars@[j] != '.',
        decreases i,
    {
        i = i - 1;
    }
    proof {
        lemma_last_dot(chars@, i - 1);
    }
    if i == 0 || i == n {
        None
    } else {
        Some(file_name.substring_char(i, n).to_owned())
    }
}

impl View for SegmentationRequest {
    type V = RequestView;

    closed spec fn view(&self) -> RequestView {
        RequestView {
            source_bytes: self.source.bytes@,
            source_format: self.source.format@,
            target_format: self.target_format@,
            max_segment_bytes: self.max_segment_bytes,
        }
    }
}

impl SegmentationRequest {
    #[verifier::type_invariant]
    spec fn well_formed(&self) -> bool {
        valid_request(self@)
    }

    /// A request for `source` to be cut into segments of `target_format`, each
    /// of at most `max_segment_bytes` bytes where that is given.
    pub fn new(source: MediaBlob, target_format: String, max_segment_bytes: Option<u64>) -> (r:
        Result<SegmentationRequest, UploadError>)
        ensures
            match spec_request_fault(source.format@, target_format@, max_segment_bytes) {
                Some(e) => r == Err::<SegmentationRequest, UploadError>(e),
                None => r matches Ok(req) && req@ == (RequestView {
                    source_bytes: source.bytes@,
                    source_format: source.format@,
                    target_format: target_format@,
                    max_segment_bytes,
                }),
            },
    {
        if source.format.as_str().is_empty() {
            return Err(UploadError::MissingExtension);
        }
        if target_format.as_str().is_empty() {
            return Err(UploadError::EmptyTargetFormat);
        }
        match max_segment_bytes {
            Some(cap) => {
                if cap == 0 {
                    return Err(UploadError::ZeroSizeCap);
                }
            },
            None => {},
        }
        Ok(SegmentationRequest { source, target_format, max_segment_bytes })
    }

    /// The request that an upload amounts to.
    ///
    /// `contents` is `None` where the uploaded bytes could not be read, and
    /// `file_name` is `None` where the upload names no file. The source format
    /// is the extension of the file name.
    pub fn from_upload(
        contents: Option<Vec<u8>>,
        file_name: Option<String>,
        target_format: String,
        max_segment_bytes: Option<u64>,
    ) -> (r: Result<SegmentationRequest, UploadError>)
        ensures
            match spec_upload_fault(
                match contents {
                    Some(c) => Some(c@),
                    None => None,
                },
                match file_name {
                    Some(f) => Some(f@),
                    None => None,
                },
                target_format@,
                max_segment_bytes,
            ) {
                Some(e) => r == Err::<SegmentationRequest, UploadError>(e),
                None => r matches Ok(req) && req@ == (RequestView {
                    source_bytes: contents->0@,
                    source_format: spec_extension(file_name->0@)->0,
                    target_format: target_format@,
                    max_segment_bytes,
                }),
            },
    {
        let bytes = match contents {
            Some(bytes) => bytes,
            None => {
                return Err(UploadError::Unreadable);
            },
        };
        let name = match file_name {
            Some(name) => name,
            None => {
                return Err(UploadError::MissingFileName);
            },
        };
        let format = match source_extension(name.as_str()) {
            Some(format) => format,
            None => {
                return Err(UploadError::MissingExtension);
            },
        };
        SegmentationRequest::new(MediaBlob { bytes, format }, target_format, max_segment_bytes)
    }

    /// The uploaded bytes.
    pub fn source_bytes(&self) -> (bytes: &Vec<u8>)
        ensures
            bytes@ == self@.source_bytes,
    {
        &self.source.bytes
    }

    /// The format that the upload claims to be in. Never empty.
    pub fn source_format(&self) -> (format: &String)
        ensures
            format@ == self@.source_format,
            format@.len() > 0,
    {
        proof {
            use_type_invariant(self);
        }
        &self.source.format
    }

    /// The format that the segments are to be in. Never empty.
    pub fn target_format(&self) -> (format: &String)
        ensures
            format@ == self@.target_format,
            format@.len() > 0,
    {
        proof {
            use_type_invariant(self);
        }
        &self.target_format
    }

    /// The most bytes a segment may have, where there is a cap. Never zero.
    pub fn max_segment_bytes(&self) -> (cap: Option<u64>)
        ensures
            cap == self@.max_segment_bytes,
            cap != Some(0u64),
    {
        proof {
            use_type_invariant(self);
        }
        self.max_segment_bytes
    }
}

} // verus!
