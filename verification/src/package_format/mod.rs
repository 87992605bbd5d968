// The manifest dialects.
use crate::numng_error::{NumngError, NumngErrorView};
use crate::plain::Plain;
use crate::text::{chars_are, chars_of, owned};
use vstd::prelude::*;

pub mod numng;

verus! {

/// The manifest dialects that a package may announce.
#[derive(Debug, Clone, Copy, PartialEq, Eq, Structural)]
pub enum PackageFormat {
    Numng,
    Nupm,
    PackerNu,
}

impl View for PackageFormat {
    type V = PackageFormat;

    open spec fn view(&self) -> PackageFormat {
        *self
    }
}

impl DeepView for PackageFormat {
    type V = PackageFormat;

    open spec fn deep_view(&self) -> PackageFormat {
        *self
    }
}

impl Plain for PackageFormat {
    fn same(&self, other: &Self) -> (r: bool) {
        *self == *other
    }

    fn copy(&self) -> (r: Self) {
        *self
    }
}

/// The lowercase form of a text: what `str::to_lowercase` returns for it.
pub uninterp spec fn lowercase_of(s: Seq<char>) -> Seq<char>;

/// The lowercase form of a text.
///
/// Trusted: calls `str::to_lowercase`, whose result depends on nothing but
/// the text; the contract only gives that result its name.
#[verifier::external_body]
fn lowercase(s: &str) -> (r: String)
    ensures
        r@ == lowercase_of(s@),
{
    s.to_lowercase()
}

/// The format that a name written in lowercase stands for, if any.
pub open spec fn format_named(lowered: Seq<char>) -> Option<PackageFormat> {
    if lowered == "numng"@ {
        Some(PackageFormat::Numng)
    } else if lowered == "nupm"@ {
        Some(PackageFormat::Nupm)
    } else if lowered == "packer.nu"@ || lowered == "packer"@ {
        Some(PackageFormat::PackerNu)
    } else {
        None
    }
}

/// What comes of reading a format's name that was brought to lowercase for
/// the package called `package_name`.
pub open spec fn read_format(package_name: Option<Seq<char>>, lowered: Seq<char>) -> Result<
    PackageFormat,
    NumngErrorView,
> {
    match format_named(lowered) {
        Some(format) => Ok(format),
        None => Err(
            NumngErrorView::InvalidPackageFieldValue {
                package_name,
                field: "package_format"@,
                value: Some(lowered),
            },
        ),
    }
}

impl PackageFormat {
    /// Reads a format's name; upper and lower case are not told apart.
    pub fn from_string(package_name: &Option<String>, s: &str) -> (r: Result<Self, NumngError>)
        ensures
            match r {
                Ok(format) => read_format(package_name.deep_view(), lowercase_of(s@)) == Ok::<
                    PackageFormat,
                    NumngErrorView,
                >(format),
                Err(e) => read_format(package_name.deep_view(), lowercase_of(s@)) == Err::<
                    PackageFormat,
                    NumngErrorView,
                >(e@),
            },
    {
        let lowered = lowercase(s);
        Self::from_lowercase(package_name, lowered.as_str())
    }

    /// Reads a format's name that is already in lowercase.
    pub fn from_lowercase(package_name: &Option<String>, lowered: &str) -> (r: Result<
        Self,
        NumngError,
    >)
        ensures
            match r {
                Ok(format) => read_format(package_name.deep_view(), lowered@) == Ok::<
                    PackageFormat,
                    NumngErrorView,
                >(format),
                Err(e) => read_format(package_name.deep_view(), lowered@) == Err::<
                    PackageFormat,
                    NumngErrorView,
                >(e@),
            },
    {
        let text = chars_of(lowered);
        if chars_are(&text, "numng") {
            Ok(PackageFormat::Numng)
        } else if chars_are(&text, "nupm") {
            Ok(PackageFormat::Nupm)
        } else if chars_are(&text, "packer.nu") || chars_are(&text, "packer") {
            Ok(PackageFormat::PackerNu)
        } else {
            Err(
                NumngError::InvalidPackageFieldValue {
                    package_name: package_name.copy(),
                    field: owned("package_format"),
                    value: Some(owned(lowered)),
                },
            )
        }
    }
}

} // verus!
