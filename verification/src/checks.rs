//! The checks made before writing: privileges, the image file and the
//! target device. The file system is looked at by the caller; these
//! functions decide on what it found.
use vstd::prelude::*;
use crate::text::{chars_of, eq_ignore_ascii_case, eq_ignore_ascii_case_range};
use crate::units::{format_size, human_size};

verus! {

/// The smallest size in bytes of a file that can be an image (1 MiB).
pub const MIN_ISO_SIZE: u64 = 1048576;

/// A failed check. Paths are given as the text of the path.
#[derive(Debug, Clone, PartialEq, Eq)]
pub enum ValidationError {
    /// The program does not run as root.
    RootRequired,
    /// The device path does not exist.
    DeviceMissing(String),
    /// The device's metadata could not be read.
    DeviceMetadataUnreadable,
    /// The device path is not a block device.
    NotBlockDevice(String),
    /// The image path does not exist.
    IsoMissing(String),
    /// The image path is not a regular file.
    IsoNotFile(String),
    /// The image's metadata could not be read.
    IsoMetadataUnreadable,
    /// The image is smaller than `MIN_ISO_SIZE`; its size is given.
    IsoTooSmall(u64),
}

/// How the `{:?}` format writes a string: quoted, with special characters
/// escaped.
pub uninterp spec fn debug_quoted(s: Seq<char>) -> Seq<char>;

/// `format!("{:?}", s)` on a string slice.
#[verifier::external_body]
fn debug_quoted_text(s: &str) -> (r: String)
    ensures
        r@ == debug_quoted(s@),
{
    format!("{:?}", s)
}

/// The message shown for a failed check.
pub open spec fn validation_message(e: ValidationError) -> Seq<char> {
    match e {
        ValidationError::RootRequired => "❌ Root privileges required!\n\n💡 Please run with sudo:\n   sudo flicker write --iso <file> --device <device>"@,
        ValidationError::DeviceMissing(p) => "❌ Device does not exist: "@ + p@,
        ValidationError::DeviceMetadataUnreadable => "Failed to get device metadata"@,
        ValidationError::NotBlockDevice(p) => "❌ "@ + debug_quoted(p@) + " is not a block device"@,
        ValidationError::IsoMissing(p) => "❌ ISO file does not exist: "@ + debug_quoted(p@),
        ValidationError::IsoNotFile(p) => "❌ "@ + debug_quoted(p@) + " is not a file"@,
        ValidationError::IsoMetadataUnreadable => "Failed to get ISO file metadata"@,
        ValidationError::IsoTooSmall(n) => "❌ File seems too small to be a valid ISO ("@
            + human_size(n as nat) + ")"@,
    }
}

impl ValidationError {
    /// The message shown for the failed check.
    pub fn message(&self) -> (m: String)
        ensures
            m@ == validation_message(*self),
    {
        match self {
            ValidationError::RootRequired => String::from_str(
                "❌ Root privileges required!\n\n💡 Please run with sudo:\n   sudo flicker write --iso <file> --device <device>",
            ),
            ValidationError::DeviceMissing(p) => {
                let mut m = String::from_str("❌ Device does not exist: ");
                m.append(p.as_str());
                m
            },
            ValidationError::DeviceMetadataUnreadable => String::from_str(
                "Failed to get device metadata",
            ),
            ValidationError::NotBlockDevice(p) => {
                let mut m = String::from_str("❌ ");
                let q = debug_quoted_text(p.as_str());
                m.append(q.as_str());
                m.append(" is not a block device");
                m
            },
            ValidationError::IsoMissing(p) => {
                let mut m = String::from_str("❌ ISO file does not exist: ");
                let q = debug_quoted_text(p.as_str());
                m.append(q.as_str());
                m
            },
            ValidationError::IsoNotFile(p) => {
                let mut m = String::from_str("❌ ");
                let q = debug_quoted_text(p.as_str());
                m.append(q.as_str());
                m.append(" is not a file");
                m
            },
            ValidationError::IsoMetadataUnreadable => String::from_str(
                "Failed to get ISO file metadata",
            ),
            ValidationError::IsoTooSmall(n) => {
                let mut m = String::from_str("❌ File seems too small to be a valid ISO (");
                let size = format_size(*n);
                m.append(size.as_str());
                m.append(")");
                m
            },
        }
    }
}

/// Writing to devices needs root: the effective user id must be 0.
pub fn require_root_privileges(euid: u32) -> (r: Result<(), ValidationError>)
    ensures
        euid == 0 ==> r is Ok,
        euid != 0 ==> r == Err::<(), ValidationError>(ValidationError::RootRequired),
{
    if euid != 0 {
        Err(ValidationError::RootRequired)
    } else {
        Ok(())
    }
}

/// The outcome of the device checks.
pub open spec fn device_check(path: Seq<char>, exists: bool, is_block_device: Option<bool>, r: Result<
    (),
    ValidationError,
>) -> bool {
    if !exists {
        r matches Err(ValidationError::DeviceMissing(p)) && p@ == path
    } else {
        match is_block_device {
            None => r == Err::<(), ValidationError>(ValidationError::DeviceMetadataUnreadable),
            Some(false) => r matches Err(ValidationError::NotBlockDevice(p)) && p@ == path,
            Some(true) => r is Ok,
        }
    }
}

/// Checks the target device at `path`: it must exist, its metadata be
/// readable (`is_block_device` is `None` when it is not) and it must be a
/// block device.
pub fn validate_device_path(path: &str, exists: bool, is_block_device: Option<bool>) -> (r: Result<
    (),
    ValidationError,
>)
    ensures
        device_check(path@, exists, is_block_device, r),
{
    if !exists {
        return Err(ValidationError::DeviceMissing(String::from_str(path)));
    }
    match is_block_device {
        None => Err(ValidationError::DeviceMetadataUnreadable),
        Some(false) => Err(ValidationError::NotBlockDevice(String::from_str(path))),
        Some(true) => Ok(()),
    }
}

/// A file extension other than "iso" and "img" (in any case) deserves a warning.
pub open spec fn unusual_extension(extension: Option<Seq<char>>) -> bool {
    match extension {
        Some(e) => !eq_ignore_ascii_case(e, seq!['i', 's', 'o']) && !eq_ignore_ascii_case(
            e,
            seq!['i', 'm', 'g'],
        ),
        None => false,
    }
}

/// `c` is the letter `lower` in either case (`upper` is its capital).
pub open spec fn is_letter(c: char, lower: char, upper: char) -> bool {
    c == lower || c == upper
}

/// `e` spells "iso" or "img", each letter in either case.
pub open spec fn is_image_extension(e: Seq<char>) -> bool {
    &&& e.len() == 3
    &&& is_letter(e[0], 'i', 'I')
    &&& (is_letter(e[1], 's', 'S') && is_letter(e[2], 'o', 'O') || is_letter(e[1], 'm', 'M')
        && is_letter(e[2], 'g', 'G'))
}

proof fn lemma_lower_is_letter(c: char, lower: char, upper: char)
    requires
        'a' <= lower <= 'z',
        upper as u32 + 32 == lower as u32,
    ensures
        (crate::text::ascii_lower(c) == lower) <==> is_letter(c, lower, upper),
{
    if 'A' <= c && c <= 'Z' {
        assert((c as u32 + 32) as char == lower <==> c as u32 + 32 == lower as u32);
    }
}

/// Law: an image file's extension raises the warning exactly when it is
/// not "iso" or "img" in some mix of upper and lower case ("img", "IMG",
/// "Iso", ...); a file without an extension raises none.
pub proof fn lemma_unusual_extension_is_not_iso_or_img(e: Seq<char>)
    ensures
        unusual_extension(Some(e)) == !is_image_extension(e),
        !unusual_extension(None),
{
    if e.len() == 3 {
        lemma_lower_is_letter(e[0], 'i', 'I');
        lemma_lower_is_letter(e[1], 's', 'S');
        lemma_lower_is_letter(e[2], 'o', 'O');
        lemma_lower_is_letter(e[1], 'm', 'M');
        lemma_lower_is_letter(e[2], 'g', 'G');
        let iso = seq!['i', 's', 'o'];
        let img = seq!['i', 'm', 'g'];
        assert(crate::text::ascii_lower(iso[0]) == 'i');
        assert(crate::text::ascii_lower(iso[1]) == 's');
        assert(crate::text::ascii_lower(iso[2]) == 'o');
        assert(crate::text::ascii_lower(img[1]) == 'm');
        assert(crate::text::ascii_lower(img[2]) == 'g');
        if is_image_extension(e) {
            if is_letter(e[1], 's', 'S') && is_letter(e[2], 'o', 'O') {
                assert(eq_ignore_ascii_case(e, iso));
            } else {
                assert(eq_ignore_ascii_case(e, img));
            }
        } else {
            if eq_ignore_ascii_case(e, iso) {
                assert(crate::text::ascii_lower(e[0]) == crate::text::ascii_lower(iso[0]));
                assert(crate::text::ascii_lower(e[1]) == crate::text::ascii_lower(iso[1]));
                assert(crate::text::ascii_lower(e[2]) == crate::text::ascii_lower(iso[2]));
            }
            if eq_ignore_ascii_case(e, img) {
                assert(crate::text::ascii_lower(e[0]) == crate::text::ascii_lower(img[0]));
                assert(crate::text::ascii_lower(e[1]) == crate::text::ascii_lower(img[1]));
                assert(crate::text::ascii_lower(e[2]) == crate::text::ascii_lower(img[2]));
            }
        }
    }
}

/// Law: an image file that exists, is a regular file and reaches the
/// minimum size is accepted, with the warning exactly when its extension
/// is not "iso" or "img" in any case.
pub proof fn lemma_image_accepted_with_extension_warning(
    path: Seq<char>,
    size: u64,
    extension: Option<Seq<char>>,
    r: Result<bool, ValidationError>,
)
    requires
        size >= MIN_ISO_SIZE,
        iso_check(path, true, true, Some(size), extension, r),
    ensures
        r == Ok::<bool, ValidationError>(
            match extension {
                Some(e) => !is_image_extension(e),
                None => false,
            },
        ),
{
    match extension {
        Some(e) => lemma_unusual_extension_is_not_iso_or_img(e),
        None => {},
    }
}

/// The outcome of the image checks.
pub open spec fn iso_check(
    path: Seq<char>,
    exists: bool,
    is_file: bool,
    size: Option<u64>,
    extension: Option<Seq<char>>,
    r: Result<bool, ValidationError>,
) -> bool {
    if !exists {
        r matches Err(ValidationError::IsoMissing(p)) && p@ == path
    } else if !is_file {
        r matches Err(ValidationError::IsoNotFile(p)) && p@ == path
    } else {
        match size {
            None => r == Err::<bool, ValidationError>(ValidationError::IsoMetadataUnreadable),
            Some(n) => if n < MIN_ISO_SIZE {
                r == Err::<bool, ValidationError>(ValidationError::IsoTooSmall(n))
            } else {
                r == Ok::<bool, ValidationError>(unusual_extension(extension))
            },
        }
    }
}

/// Checks the image file at `path`: it must exist and be a regular file,
/// its size (`None` when the metadata could not be read) must be readable
/// and at least 1 MiB. An accepted file tells whether its extension (from
/// its file name) deserves a warning; extensions are compared lower-cased,
/// and only the ASCII letters lower-case to the letters of "iso" and "img".
pub fn validate_iso_file(
    path: &str,
    exists: bool,
    is_file: bool,
    size: Option<u64>,
    extension: Option<&str>,
) -> (r: Result<bool, ValidationError>)
    ensures
        iso_check(
            path@,
            exists,
            is_file,
            size,
            match extension {
                Some(e) => Some(e@),
                None => None,
            },
            r,
        ),
{
    if !exists {
        return Err(ValidationError::IsoMissing(String::from_str(path)));
    }
    if !is_file {
        return Err(ValidationError::IsoNotFile(String::from_str(path)));
    }
    let n = match size {
        None => {
            return Err(ValidationError::IsoMetadataUnreadable);
        },
        Some(n) => n,
    };
    if n < MIN_ISO_SIZE {
        return Err(ValidationError::IsoTooSmall(n));
    }
    match extension {
        None => Ok(false),
        Some(e) => {
            let v = chars_of(e);
            assert(v@.subrange(0, v.len() as int) =~= v@);
            let mut iso: Vec<char> = Vec::new();
            iso.push('i');
            iso.push('s');
            iso.push('o');
            assert(iso@ =~= seq!['i', 's', 'o']);
            let mut img: Vec<char> = Vec::new();
            img.push('i');
            img.push('m');
            img.push('g');
            assert(img@ =~= seq!['i', 'm', 'g']);
            let is_iso = eq_ignore_ascii_case_range(&v, 0, v.len(), &iso);
            let is_img = eq_ignore_ascii_case_range(&v, 0, v.len(), &img);
            Ok(!is_iso && !is_img)
        },
    }
}

} // verus!
