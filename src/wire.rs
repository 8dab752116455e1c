//! The fixed-layout record exchanged with the kernel filter. Adding and
//! removing a rule share the layout; a record with every flag clear removes.
use vstd::prelude::*;
use crate::kernel_policy::{KernelPolicy, KernelPolicyView, PathMatchType};
use crate::paths::ends_with_separator;

verus! {

/// UTF-16 code units in a record's path field.
pub const PATH_UNITS: usize = 260;

/// UTF-16 code units in a record's creator field.
pub const ADDED_BY_UNITS: usize = 64;

/// Bytes in the reserved tail.
pub const RESERVED_BYTES: usize = 8;

/// Bytes in the encoded record, with the padding that aligns the timestamp.
pub const RECORD_BYTES: usize = 672;

/// The UTF-16 code units of one character.
pub open spec fn char_units(c: char) -> Seq<u16> {
    let v = c as u32;
    if v < 0x10000 {
        seq![v as u16]
    } else {
        let w = (v - 0x10000) as u32;
        seq![(0xD800 + w / 1024) as u16, (0xDC00 + w % 1024) as u16]
    }
}

/// The UTF-16 encoding of a text.
pub open spec fn utf16(s: Seq<char>) -> Seq<u16>
    decreases s.len(),
{
    if s.len() == 0 {
        Seq::empty()
    } else {
        utf16(s.drop_last()) + char_units(s.last())
    }
}

/// A fixed field of `n` units: at most `n - 1` units of `u`, then zeros, so
/// that the field is always terminated.
pub open spec fn fixed_field(u: Seq<u16>, n: nat) -> Seq<u16> {
    let k = if u.len() < n - 1 {
        u.len()
    } else {
        (n - 1) as nat
    };
    Seq::new(n, |i: int| if i < k { u[i] } else { 0u16 })
}

fn push_char_units(v: &mut Vec<u16>, c: char)
    ensures
        final(v)@ == old(v)@ + char_units(c),
{
    let x = c as u32;
    if x < 0x10000 {
        v.push(x as u16);
        assert(v@ =~= old(v)@ + char_units(c));
    } else {
        assert(x <= 0x10FFFF) by {
            assert(c as u32 <= 0x10FFFF);
        }
        let w = x - 0x10000;
        v.push((0xD800 + w / 1024) as u16);
        v.push((0xDC00 + w % 1024) as u16);
        assert(v@ =~= old(v)@ + char_units(c));
    }
}

/// The UTF-16 encoding of `s`.
pub fn encode_utf16(s: &str) -> (r: Vec<u16>)
    ensures
        r@ == utf16(s@),
{
    let n = s.unicode_len();
    let mut v: Vec<u16> = Vec::new();
    let mut i: usize = 0;
    while i < n
        invariant
            n == s@.len(),
            i <= n,
            v@ == utf16(s@.subrange(0, i as int)),
        decreases n - i,
    {
        let c = s.get_char(i);
        push_char_units(&mut v, c);
        proof {
            let t = s@.subrange(0, i + 1);
            assert(t.drop_last() =~= s@.subrange(0, i as int));
            assert(t.last() == c);
        }
        i = i + 1;
    }
    assert(s@.subrange(0, n as int) =~= s@);
    v
}

/// The fixed field of `n` units holding `s`.
pub fn fixed_units(s: &str, n: usize) -> (r: Vec<u16>)
    requires
        n >= 1,
    ensures
        r@ == fixed_field(utf16(s@), n as nat),
{
    let u = encode_utf16(s);
    let k: usize = if u.len() < n - 1 {
        u.len()
    } else {
        n - 1
    };
    let mut v: Vec<u16> = Vec::new();
    let mut i: usize = 0;
    while i < n
        invariant
            i <= n,
            k <= u.len(),
            k <= n - 1,
            k == (if u@.len() < n - 1 { u@.len() } else { (n - 1) as nat }),
            v@ == fixed_field(u@, n as nat).subrange(0, i as int),
        decreases n - i,
    {
        if i < k {
            v.push(u[i]);
        } else {
            v.push(0u16);
        }
        assert(v@ =~= fixed_field(u@, n as nat).subrange(0, i + 1));
        i = i + 1;
    }
    assert(v@ =~= fixed_field(u@, n as nat));
    v
}

/// The kernel record of one rule.
#[derive(Debug)]
pub struct FilePolicy {
    /// The device path, UTF-16, null padded: `PATH_UNITS` units.
    pub path: Vec<u16>,
    /// 1 for a prefix (folder) rule.
    pub is_folder: u8,
    /// Always 0: reads are blocked through `block_all` only.
    pub block_read: u8,
    pub block_write: u8,
    pub block_delete: u8,
    pub block_rename: u8,
    pub block_create: u8,
    /// Overrides every other flag when set.
    pub block_all: u8,
    /// Seconds since the epoch.
    pub timestamp: u64,
    /// The creator, UTF-16, null padded: `ADDED_BY_UNITS` units.
    pub added_by: Vec<u16>,
    /// Zero filled.
    pub reserved: Vec<u8>,
}

/// The mathematical value of a record.
pub struct FilePolicyView {
    pub path: Seq<u16>,
    pub is_folder: u8,
    pub block_read: u8,
    pub block_write: u8,
    pub block_delete: u8,
    pub block_rename: u8,
    pub block_create: u8,
    pub block_all: u8,
    pub timestamp: u64,
    pub added_by: Seq<u16>,
    pub reserved: Seq<u8>,
}

impl View for FilePolicy {
    type V = FilePolicyView;

    open spec fn view(&self) -> FilePolicyView {
        FilePolicyView {
            path: self.path@,
            is_folder: self.is_folder,
            block_read: self.block_read,
            block_write: self.block_write,
            block_delete: self.block_delete,
            block_rename: self.block_rename,
            block_create: self.block_create,
            block_all: self.block_all,
            timestamp: self.timestamp,
            added_by: self.added_by@,
            reserved: self.reserved@,
        }
    }
}

pub open spec fn flag(b: bool) -> u8 {
    if b {
        1
    } else {
        0
    }
}

pub open spec fn zeros(n: nat) -> Seq<u8> {
    Seq::new(n, |i: int| 0u8)
}

/// The record that adds a rule.
pub open spec fn rule_record(p: KernelPolicyView) -> FilePolicyView {
    FilePolicyView {
        path: fixed_field(utf16(p.nt_path), PATH_UNITS as nat),
        is_folder: flag(p.match_type == PathMatchType::Prefix),
        block_read: 0,
        block_write: flag(p.blocked_ops.write),
        block_delete: flag(p.blocked_ops.delete),
        block_rename: flag(p.blocked_ops.rename),
        block_create: flag(p.blocked_ops.create),
        block_all: flag(p.block_all),
        timestamp: p.timestamp,
        added_by: fixed_field(utf16(p.created_by), ADDED_BY_UNITS as nat),
        reserved: zeros(RESERVED_BYTES as nat),
    }
}

/// The record that removes the rule on `path`: every flag clear. The kernel
/// matches it on the path and the folder flag, which a trailing separator sets.
pub open spec fn removal_record(path: Seq<char>) -> FilePolicyView {
    FilePolicyView {
        path: fixed_field(utf16(path), PATH_UNITS as nat),
        is_folder: flag(path.len() > 0 && path.last() == '\\'),
        block_read: 0,
        block_write: 0,
        block_delete: 0,
        block_rename: 0,
        block_create: 0,
        block_all: 0,
        timestamp: 0,
        added_by: fixed_field(Seq::empty(), ADDED_BY_UNITS as nat),
        reserved: zeros(RESERVED_BYTES as nat),
    }
}

/// A removal record: every flag clear.
pub open spec fn is_tombstone(r: FilePolicyView) -> bool {
    r.block_read == 0 && r.block_write == 0 && r.block_delete == 0 && r.block_rename == 0
        && r.block_create == 0 && r.block_all == 0
}

/// Little-endian bytes of 16-bit units.
pub open spec fn le16s(u: Seq<u16>) -> Seq<u8>
    decreases u.len(),
{
    if u.len() == 0 {
        Seq::empty()
    } else {
        le16s(u.drop_last()) + seq![(u.last() % 256) as u8, (u.last() / 256) as u8]
    }
}

/// Little-endian bytes of a 64-bit value.
pub open spec fn le64(x: u64) -> Seq<u8> {
    Seq::new(8, |i: int| ((x as nat / pow256(i as nat)) % 256) as u8)
}

pub open spec fn pow256(k: nat) -> nat
    decreases k,
{
    if k == 0 {
        1
    } else {
        256 * pow256((k - 1) as nat)
    }
}

/// The bytes of a record as the kernel reads them.
pub open spec fn record_bytes(r: FilePolicyView) -> Seq<u8> {
    le16s(r.path) + seq![
        r.is_folder,
        r.block_read,
        r.block_write,
        r.block_delete,
        r.block_rename,
        r.block_create,
        r.block_all,
        0u8,
    ] + le64(r.timestamp) + le16s(r.added_by) + r.reserved
}

fn zero_bytes(n: usize) -> (r: Vec<u8>)
    ensures
        r@ == zeros(n as nat),
{
    let mut v: Vec<u8> = Vec::new();
    let mut i: usize = 0;
    while i < n
        invariant
            i <= n,
            v@ == zeros(i as nat),
        decreases n - i,
    {
        v.push(0u8);
        assert(v@ =~= zeros((i + 1) as nat));
        i = i + 1;
    }
    v
}

fn push_le16s(out: &mut Vec<u8>, u: &Vec<u16>)
    ensures
        final(out)@ == old(out)@ + le16s(u@),
{
    let mut i: usize = 0;
    while i < u.len()
        invariant
            i <= u.len(),
            out@ == old(out)@ + le16s(u@.subrange(0, i as int)),
        decreases u.len() - i,
    {
        let x = u[i];
        out.push((x % 256) as u8);
        out.push((x / 256) as u8);
        proof {
            let t = u@.subrange(0, i + 1);
            assert(t.drop_last() =~= u@.subrange(0, i as int));
            assert(t.last() == x);
            assert(out@ =~= old(out)@ + le16s(t));
        }
        i = i + 1;
    }
    assert(u@.subrange(0, u.len() as int) =~= u@);
}

fn push_le64(out: &mut Vec<u8>, x: u64)
    ensures
        final(out)@ == old(out)@ + le64(x),
{
    let mut i: usize = 0;
    let mut y: u64 = x;
    assert(pow256(0) == 1);
    assert(out@ =~= old(out)@ + le64(x).subrange(0, 0));
    while i < 8
        invariant
            i <= 8,
            y as nat == x as nat / pow256(i as nat),
            out@ == old(out)@ + le64(x).subrange(0, i as int),
        decreases 8 - i,
    {
        out.push((y % 256) as u8);
        proof {
            assert(pow256((i + 1) as nat) == 256 * pow256(i as nat));
            assert(pow256(i as nat) > 0) by {
                lemma_pow256_pos(i as nat);
            }
            vstd::arithmetic::div_mod::lemma_div_denominator(
                x as int,
                pow256(i as nat) as int,
                256,
            );
            assert(out@ =~= old(out)@ + le64(x).subrange(0, i + 1));
        }
        y = y / 256;
        i = i + 1;
    }
    assert(le64(x).subrange(0, 8) =~= le64(x));
}

proof fn lemma_pow256_pos(k: nat)
    ensures
        pow256(k) > 0,
    decreases k,
{
    if k > 0 {
        lemma_pow256_pos((k - 1) as nat);
    }
}

impl FilePolicy {
    /// The record that adds `policy`. Copy and execute have no field of
    /// their own: the kernel blocks them through `block_all`.
    pub fn from_kernel_policy(policy: &KernelPolicy) -> (r: Self)
        ensures
            r@ == rule_record(policy@),
    {
        FilePolicy {
            path: fixed_units(policy.nt_path.as_str(), PATH_UNITS),
            is_folder: if policy.match_type == PathMatchType::Prefix {
                1
            } else {
                0
            },
            block_read: 0,
            block_write: if policy.blocked_ops.write {
                1
            } else {
                0
            },
            block_delete: if policy.blocked_ops.delete {
                1
            } else {
                0
            },
            block_rename: if policy.blocked_ops.rename {
                1
            } else {
                0
            },
            block_create: if policy.blocked_ops.create {
                1
            } else {
                0
            },
            block_all: if policy.block_all {
                1
            } else {
                0
            },
            timestamp: policy.timestamp,
            added_by: fixed_units(policy.created_by.as_str(), ADDED_BY_UNITS),
            reserved: zero_bytes(RESERVED_BYTES),
        }
    }

    /// A folder record for `path` that blocks writing, renaming and deleting.
    pub fn new(path: &str) -> (r: Self)
        ensures
            r@ == (FilePolicyView {
                path: fixed_field(utf16(path@), PATH_UNITS as nat),
                is_folder: 1,
                block_read: 0,
                block_write: 1,
                block_delete: 1,
                block_rename: 1,
                block_create: 0,
                block_all: 0,
                timestamp: 0,
                added_by: fixed_field(Seq::empty(), ADDED_BY_UNITS as nat),
                reserved: zeros(RESERVED_BYTES as nat),
            }),
    {
        proof {
            reveal_strlit("");
        }
        FilePolicy {
            path: fixed_units(path, PATH_UNITS),
            is_folder: 1,
            block_read: 0,
            block_write: 1,
            block_delete: 1,
            block_rename: 1,
            block_create: 0,
            block_all: 0,
            timestamp: 0,
            added_by: fixed_units("", ADDED_BY_UNITS),
            reserved: zero_bytes(RESERVED_BYTES),
        }
    }

    /// The record that removes the rule on `nt_path`.
    pub fn removal(nt_path: &str) -> (r: Self)
        ensures
            r@ == removal_record(nt_path@),
            is_tombstone(r@),
    {
        proof {
            reveal_strlit("");
        }
        FilePolicy {
            path: fixed_units(nt_path, PATH_UNITS),
            is_folder: if ends_with_separator(nt_path) {
                1
            } else {
                0
            },
            block_read: 0,
            block_write: 0,
            block_delete: 0,
            block_rename: 0,
            block_create: 0,
            block_all: 0,
            timestamp: 0,
            added_by: fixed_units("", ADDED_BY_UNITS),
            reserved: zero_bytes(RESERVED_BYTES),
        }
    }

    /// The record's bytes, in the kernel's layout.
    pub fn to_bytes(&self) -> (r: Vec<u8>)
        ensures
            r@ == record_bytes(self@),
    {
        let mut out: Vec<u8> = Vec::new();
        push_le16s(&mut out, &self.path);
        out.push(self.is_folder);
        out.push(self.block_read);
        out.push(self.block_write);
        out.push(self.block_delete);
        out.push(self.block_rename);
        out.push(self.block_create);
        out.push(self.block_all);
        out.push(0u8);
        push_le64(&mut out, self.timestamp);
        push_le16s(&mut out, &self.added_by);
        let mut i: usize = 0;
        let ghost before = out@;
        while i < self.reserved.len()
            invariant
                i <= self.reserved.len(),
                out@ == before + self.reserved@.subrange(0, i as int),
            decreases self.reserved.len() - i,
        {
            out.push(self.reserved[i]);
            assert(out@ =~= before + self.reserved@.subrange(0, i + 1));
            i = i + 1;
        }
        assert(self.reserved@.subrange(0, self.reserved.len() as int) =~= self.reserved@);
        assert(out@ =~= record_bytes(self@));
        out
    }
}

} // verus!
