//! Classification of JAR entry names.
use vstd::prelude::*;

use crate::text::{
    ascii_lowercase, ends_with, has_prefix, has_suffix, lowercase_ends_with, lowercase_equals,
    starts_with,
};

verus! {

/// The entry lies in the `META-INF/` directory.
pub open spec fn is_meta_inf_name(name: Seq<char>) -> bool {
    has_prefix(name, "META-INF/"@)
}

/// A signature file: `META-INF/*.SF` (case-sensitive).
pub open spec fn is_signature_file_name(name: Seq<char>) -> bool {
    is_meta_inf_name(name) && has_suffix(name, ".SF"@)
}

/// A signature block: `META-INF/*.RSA` or `META-INF/*.DSA` (case-sensitive).
pub open spec fn is_signature_block_name(name: Seq<char>) -> bool {
    is_meta_inf_name(name) && (has_suffix(name, ".RSA"@) || has_suffix(name, ".DSA"@))
}

/// Any of the files whose presence marks a JAR as signed.
pub open spec fn is_signature_name(name: Seq<char>) -> bool {
    is_signature_file_name(name) || is_signature_block_name(name)
}

/// An entry that signing with `override_signature` drops: a signature file,
/// block or manifest, compared without regard to ASCII case.
pub open spec fn is_replaced_on_override(name: Seq<char>) -> bool {
    let lower = ascii_lowercase(name);
    &&& is_meta_inf_name(name)
    &&& {
        ||| has_suffix(lower, ".sf"@)
        ||| has_suffix(lower, ".rsa"@)
        ||| has_suffix(lower, ".dsa"@)
        ||| has_suffix(lower, ".ec"@)
        ||| lower == "meta-inf/manifest.mf"@
    }
}

pub fn is_meta_inf(name: &str) -> (r: bool)
    ensures
        r == is_meta_inf_name(name@),
{
    starts_with(name, "META-INF/")
}

pub fn is_signature_file(name: &str) -> (r: bool)
    ensures
        r == is_signature_file_name(name@),
{
    is_meta_inf(name) && ends_with(name, ".SF")
}

pub fn is_signature_block(name: &str) -> (r: bool)
    ensures
        r == is_signature_block_name(name@),
{
    is_meta_inf(name) && (ends_with(name, ".RSA") || ends_with(name, ".DSA"))
}

pub fn is_signature(name: &str) -> (r: bool)
    ensures
        r == is_signature_name(name@),
{
    is_meta_inf(name) && (ends_with(name, ".SF") || ends_with(name, ".RSA") || ends_with(
        name,
        ".DSA",
    ))
}

pub fn is_replaced(name: &str) -> (r: bool)
    ensures
        r == is_replaced_on_override(name@),
{
    if !is_meta_inf(name) {
        return false;
    }
    lowercase_ends_with(name, ".sf") || lowercase_ends_with(name, ".rsa") || lowercase_ends_with(
        name,
        ".dsa",
    ) || lowercase_ends_with(name, ".ec") || lowercase_equals(name, "meta-inf/manifest.mf")
}

} // verus!
