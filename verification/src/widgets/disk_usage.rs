//! The widget that shows how full a file system is.

use crate::strings::owned;
use crate::text::{Attributes, Text, TextView};
use vstd::prelude::*;

verus! {

/// Represent Information about the mounted filesystem
#[derive(Clone, Copy, Debug, PartialEq, Eq, Structural)]
pub struct DiskInfo {
    /// Total size of the filesystem, in bytes
    pub total: u128,
    /// Total used space of the filesystem, in bytes
    pub used: u128,
    /// Total free space of the filesystem, in bytes
    pub free: u128,
}

impl DiskInfo {
    /// What the numbers of a file system say, in bytes.
    pub open spec fn of(blocks: u64, blocks_free: u64, blocks_available: u64, fragment_size: u64)
        -> Option<DiskInfo> {
        if blocks_free <= blocks {
            Some(
                DiskInfo {
                    total: (blocks * fragment_size) as u128,
                    used: ((blocks - blocks_free) * fragment_size) as u128,
                    free: (blocks_available * fragment_size) as u128,
                },
            )
        } else {
            None
        }
    }

    /// Counts the bytes of a file system from its numbers of blocks: all
    /// blocks, the free ones, and those that are free for everyone, each of
    /// `fragment_size` bytes. `None` where more blocks are free than there
    /// are.
    pub fn new(blocks: u64, blocks_free: u64, blocks_available: u64, fragment_size: u64) -> (r:
        Option<DiskInfo>)
        ensures
            r == DiskInfo::of(blocks, blocks_free, blocks_available, fragment_size),
    {
        if blocks_free > blocks {
            return None;
        }
        assert(blocks * fragment_size <= u128::MAX && (blocks - blocks_free) * fragment_size
            <= u128::MAX && blocks_available * fragment_size <= u128::MAX) by (nonlinear_arith)
            requires
                blocks <= u64::MAX,
                blocks_free <= blocks,
                blocks_available <= u64::MAX,
                fragment_size <= u64::MAX,
        ;
        let total_size = blocks as u128 * fragment_size as u128;
        let used = (blocks - blocks_free) as u128 * fragment_size as u128;
        let available = blocks_available as u128 * fragment_size as u128;
        Some(DiskInfo { total: total_size, used, free: available })
    }
}

/// The units in which a number of bytes can be written: bytes, and the
/// powers of 1024 bytes.
#[derive(Clone, Copy, Debug, PartialEq, Eq, Structural)]
pub enum Unit {
    B,
    KiB,
    MiB,
    GiB,
    TiB,
}

/// A number of bytes as the `byte_unit` crate writes it in the given unit,
/// with so many digits after the point.
pub uninterp spec fn bytes_text(bytes: u128, unit: Unit, fractional_digits: u8) -> Seq<char>;

/// Writes a number of bytes in the given unit, with so many digits after the
/// point.
///
/// Calls `Byte::from_bytes`, `Byte::get_adjusted_unit` and
/// `AdjustedByte::format`, all of the `byte_unit` crate. The result depends on
/// the number, the unit and the number of digits alone.
#[verifier::external_body]
fn format_bytes(bytes: u128, unit: Unit, fractional_digits: u8) -> (r: String)
    ensures
        r@ == bytes_text(bytes, unit, fractional_digits),
{
    let unit = match unit {
        Unit::B => byte_unit::ByteUnit::B,
        Unit::KiB => byte_unit::ByteUnit::KiB,
        Unit::MiB => byte_unit::ByteUnit::MiB,
        Unit::GiB => byte_unit::ByteUnit::GiB,
        Unit::TiB => byte_unit::ByteUnit::TiB,
    };
    byte_unit::Byte::from_bytes(bytes).get_adjusted_unit(unit).format(usize::from(fractional_digits))
}

/// What the widget writes by itself: what is used of the file system, and
/// all of it. Both are written in units of 2^30 bytes, without digits after
/// the point.
pub open spec fn disk_text(used: Seq<char>, total: Seq<char>) -> Seq<char> {
    "Disk: "@ + used + "/"@ + total
}

/// Puts what is used and what there is into the text of the widget.
pub fn disk_string(used: &str, total: &str) -> (r: String)
    ensures
        r@ == disk_text(used@, total@),
{
    let mut text = owned("Disk: ");
    text.append(used);
    text.append("/");
    text.append(total);
    text
}

/// Disk usage widget to show total size and remaining free space
/// in the mounted filesystem.
pub struct DiskUsage {
    pub attr: Attributes,
    pub path: String,
}

impl DiskUsage {
    /// Creates a new [`DiskUsage`] widget.
    ///
    /// Arguments
    ///
    /// * `attr` - Represents `Attributes` which controls properties like
    /// `Font`, foreground and background color etc.
    ///
    /// * `path` - Pathname of any file within the mounted filesystem.
    pub fn new(attr: Attributes, path: String) -> (r: DiskUsage)
        ensures
            r.attr@ == attr@,
            r.path@ == path@,
    {
        DiskUsage { attr, path }
    }

    /// The one text that the widget shows. `rendered` is what the caller's
    /// own way of writing the file system gave, where there is one.
    pub open spec fn shown(self, info: DiskInfo, rendered: Option<Seq<char>>) -> TextView {
        TextView {
            attr: self.attr@,
            text: match rendered {
                Some(text) => text,
                None => disk_text(
                    bytes_text(info.used, Unit::GiB, 0),
                    bytes_text(info.total, Unit::GiB, 0),
                ),
            },
            stretch: false,
            markup: true,
        }
    }

    /// The texts for a file system of which `disk_info` is known.
    pub fn tick(&self, disk_info: &DiskInfo, rendered: Option<String>) -> (r: Vec<Text>)
        ensures
            r@.len() == 1,
            r@[0]@ == self.shown(
                *disk_info,
                match rendered {
                    Some(text) => Some(text@),
                    None => None,
                },
            ),
    {
        let text = match rendered {
            Some(text) => text,
            None => {
                let used = format_bytes(disk_info.used, Unit::GiB, 0);
                let total = format_bytes(disk_info.total, Unit::GiB, 0);
                disk_string(used.as_str(), total.as_str())
            },
        };
        let mut texts = Vec::new();
        texts.push(Text { attr: self.attr.clone(), text, stretch: false, markup: true });
        texts
    }
}

} // verus!
