//! The suffix that tells builds of different untagged commits apart.

use vstd::prelude::*;
use vstd::string::*;
use crate::origin::text_of;

verus! {

/// The number of leading characters of the head revision that the suffix
/// carries.
pub open spec fn short_rev_len() -> nat {
    10
}

/// The key of the version override, in the current or the legacy spelling.
pub open spec fn override_key(legacy: bool) -> Seq<char> {
    if legacy {
        "PV_append"@
    } else {
        "PV:append"@
    }
}

/// The assignment that appends the abbreviated head revision to the
/// version.
pub open spec fn override_assignment(head_revision: Seq<char>, legacy: bool) -> Seq<char> {
    override_key(legacy) + " = \".AUTOINC+"@ + head_revision.subrange(0, short_rev_len() as int)
        + "\""@
}

/// The version pin suffix of a checkout: none for a tagged checkout, whose
/// version is stable as it is, and none where the head revision is too
/// short to tell commits apart.
pub open spec fn version_pin(
    is_tagged_checkout: bool,
    head_revision: Seq<char>,
    legacy: bool,
) -> Option<Seq<char>> {
    if !is_tagged_checkout && head_revision.len() > short_rev_len() {
        Some(override_assignment(head_revision, legacy))
    } else {
        None
    }
}

/// Computes the version pin suffix of the project's own checkout.
pub fn compute(is_tagged_checkout: bool, head_revision: &str, legacy_override_syntax: bool) -> (out:
    Option<String>)
    ensures
        text_of(out) == version_pin(is_tagged_checkout, head_revision@, legacy_override_syntax),
{
    if is_tagged_checkout || head_revision.unicode_len() <= 10 {
        return None;
    }
    let mut suffix = if legacy_override_syntax {
        "PV_append".to_string()
    } else {
        "PV:append".to_string()
    };
    suffix.append(" = \".AUTOINC+");
    suffix.append(head_revision.substring_char(0, 10));
    suffix.append("\"");
    Some(suffix)
}

/// A tagged checkout has no version pin suffix, however long its head
/// revision is and whichever spelling is asked for.
pub proof fn law_tagged_checkout_has_no_suffix(head_revision: Seq<char>, legacy: bool)
    ensures
        version_pin(true, head_revision, legacy) is None,
{
}

} // verus!
