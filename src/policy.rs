use vstd::prelude::*;

verus! {

/// The nine rwx bits of owner, group and other.
pub const PERMISSION_MASK: u32 = 0o777;

/// The mode that enforcement gives an entry whose mode is `current`.
pub open spec fn make_mode_spec(current: u32, wanted: u32, exact: bool) -> u32 {
    if exact {
        (current & !PERMISSION_MASK) | wanted
    } else {
        current | wanted
    }
}

/// The execute bit that a read bit of a file mode grants to directories, or 0.
pub open spec fn exec_for_read(mode: u32, read_bit: u32, exec_bit: u32) -> u32 {
    if mode & read_bit != 0 {
        exec_bit
    } else {
        0
    }
}

/// Directory bits derived from file bits: each read bit (owner, group, other)
/// also grants the matching execute bit, so that readable directories stay
/// traversable.
pub open spec fn dir_perms_spec(mode: u32) -> u32 {
    mode | exec_for_read(mode, 0o400, 0o100) | exec_for_read(mode, 0o040, 0o010)
        | exec_for_read(mode, 0o004, 0o001)
}

/// Merges the wanted bits into `current_mode`: with `exact` the nine rwx bits are
/// replaced by `wanted_mode`, otherwise the wanted bits are only added.
pub fn make_mode(current_mode: u32, wanted_mode: u32, exact: bool) -> (r: u32)
    ensures
        r == make_mode_spec(current_mode, wanted_mode, exact),
        !exact ==> r == current_mode | wanted_mode,
{
    if exact {
        current_mode & !PERMISSION_MASK | wanted_mode
    } else {
        current_mode | wanted_mode
    }
}

/// The new mode to set on an entry, or `None` when it already has the mode
/// that enforcement would give it (then no change is made at all).
pub fn handle_path_chmod(current_mode: u32, wanted_mode: u32, exact: bool) -> (r: Option<u32>)
    ensures
        make_mode_spec(current_mode, wanted_mode, exact) == current_mode ==> r is None,
        make_mode_spec(current_mode, wanted_mode, exact) != current_mode ==> r == Some(
            make_mode_spec(current_mode, wanted_mode, exact),
        ),
{
    let new_mode = make_mode(current_mode, wanted_mode, exact);
    if new_mode != current_mode {
        Some(new_mode)
    } else {
        None
    }
}

/// Derives directory permission bits from file permission bits: owner, group
/// and other read each add the matching execute bit.
pub fn convert_dir_perms(mode: u32) -> (r: u32)
    ensures
        r == dir_perms_spec(mode),
{
    let mut r = mode;
    if mode & 0o400 != 0 {
        r = r | 0o100;
    } else {
        assert(r == r | 0u32) by (bit_vector);
    }
    if mode & 0o040 != 0 {
        r = r | 0o010;
    } else {
        assert(r == r | 0u32) by (bit_vector);
    }
    if mode & 0o004 != 0 {
        r = r | 0o001;
    } else {
        assert(r == r | 0u32) by (bit_vector);
    }
    r
}

/// Enforcing twice is the same as enforcing once: the mode computed for an
/// entry is already at rest under the same wanted bits and exact flag.
pub proof fn lemma_make_mode_idempotent(current: u32, wanted: u32, exact: bool)
    ensures
        make_mode_spec(make_mode_spec(current, wanted, exact), wanted, exact)
            == make_mode_spec(current, wanted, exact),
{
    assert(((((current & !0o777u32) | wanted) & !0o777u32) | wanted) == ((current & !0o777u32)
        | wanted)) by (bit_vector);
    assert(((current | wanted) | wanted) == (current | wanted)) by (bit_vector);
}

/// Additive enforcement only adds bits: the result is `current | wanted`, so
/// every bit the entry had stays set.
pub proof fn lemma_make_mode_additive(current: u32, wanted: u32)
    ensures
        make_mode_spec(current, wanted, false) == current | wanted,
        make_mode_spec(current, wanted, false) & current == current,
{
    assert((current | wanted) & current == current) by (bit_vector);
}

/// Exact enforcement sets the nine rwx bits to exactly the wanted ones and keeps
/// every bit of `current` outside them; when the wanted bits lie within the nine,
/// the bits outside them are unchanged.
pub proof fn lemma_make_mode_exact(current: u32, wanted: u32)
    ensures
        make_mode_spec(current, wanted, true) & PERMISSION_MASK == wanted & PERMISSION_MASK,
        make_mode_spec(current, wanted, true) & (current & !PERMISSION_MASK) == current
            & !PERMISSION_MASK,
        wanted & !PERMISSION_MASK == 0 ==> make_mode_spec(current, wanted, true)
            & !PERMISSION_MASK == current & !PERMISSION_MASK,
{
    assert((((current & !0o777u32) | wanted) & 0o777u32) == wanted & 0o777u32) by (bit_vector);
    assert((((current & !0o777u32) | wanted) & (current & !0o777u32)) == current & !0o777u32)
        by (bit_vector);
    assert(wanted & !0o777u32 == 0 ==> (((current & !0o777u32) | wanted) & !0o777u32) == current
        & !0o777u32) by (bit_vector);
}

} // verus!
