//! What is shown of a connected board.

use vstd::prelude::*;
use crate::text::{decimal, decimal_of, join, joined, texts};

verus! {

broadcast use vstd::string::group_string_axioms;

/// What the flasher reports of a board, each item as it is shown.
pub struct BoardInfo {
    /// The chip type.
    pub chip: String,
    /// The chip revision, as `(major, minor)`, when known.
    pub revision: Option<(u32, u32)>,
    /// The crystal frequency.
    pub crystal_frequency: String,
    /// The size of the flash.
    pub flash_size: String,
    /// The device features.
    pub features: Vec<String>,
    /// The MAC address.
    pub mac_address: String,
}

/// The revision note after the chip type: ` (revision vMAJOR.MINOR)`, or
/// nothing when the revision is not known.
pub open spec fn revision_note(revision: Option<(u32, u32)>) -> Seq<char> {
    match revision {
        Some((major, minor)) => " (revision v"@ + decimal_of(major as nat) + "."@ + decimal_of(
            minor as nat,
        ) + ")"@,
        None => Seq::empty(),
    }
}

/// The board report: one labelled line per item.
pub open spec fn report_of(info: BoardInfo) -> Seq<char> {
    "Chip type:         "@ + info.chip@ + revision_note(info.revision) + "\n"@
        + "Crystal frequency: "@ + info.crystal_frequency@ + "\n"@ + "Flash size:        "@
        + info.flash_size@ + "\n"@ + "Features:          "@ + joined(
        texts(info.features@),
        ", "@,
    ) + "\n"@ + "MAC address:       "@ + info.mac_address@ + "\n"@
}

/// The text that is printed about a connected board.
pub fn board_info_report(info: &BoardInfo) -> (r: String)
    ensures
        r@ == report_of(*info),
        info.revision matches Some((major, minor)) ==> ("Chip type:         "@ + info.chip@
            + " (revision v"@ + decimal_of(major as nat) + "."@ + decimal_of(minor as nat) + ")"@
            + "\n"@).is_prefix_of(r@),
        info.revision is None ==> ("Chip type:         "@ + info.chip@ + "\n"@).is_prefix_of(r@),
        ("MAC address:       "@ + info.mac_address@ + "\n"@).is_suffix_of(r@),
{
    proof {
        law_report_lines(*info);
    }
    let mut r = String::from_str("Chip type:         ");
    r.append(info.chip.as_str());
    match info.revision {
        Some((major, minor)) => {
            r.append(" (revision v");
            r.append(decimal(major as u64).as_str());
            r.append(".");
            r.append(decimal(minor as u64).as_str());
            r.append(")");
        },
        None => {},
    }
    r.append("\n");
    r.append("Crystal frequency: ");
    r.append(info.crystal_frequency.as_str());
    r.append("\n");
    r.append("Flash size:        ");
    r.append(info.flash_size.as_str());
    r.append("\n");
    r.append("Features:          ");
    r.append(join(&info.features, ", ").as_str());
    r.append("\n");
    r.append("MAC address:       ");
    r.append(info.mac_address.as_str());
    r.append("\n");
    assert(r@ =~= report_of(*info));
    r
}


/// The report starts with the chip line: the chip type, then, whenever the
/// revision is known (whatever its numbers), ` (revision vMAJOR.MINOR)` with
/// both numbers in decimal; and the report ends with the MAC address line.
/// In full, it is the lines for chip, crystal frequency, flash size, features
/// (all of them, joined by `, `) and MAC address, each ended by a line end.
pub proof fn law_report_lines(info: BoardInfo)
    ensures
        info.revision matches Some((major, minor)) ==> ("Chip type:         "@ + info.chip@
            + " (revision v"@ + decimal_of(major as nat) + "."@ + decimal_of(minor as nat) + ")"@
            + "\n"@).is_prefix_of(report_of(info)),
        info.revision is None ==> ("Chip type:         "@ + info.chip@ + "\n"@).is_prefix_of(
            report_of(info),
        ),
        ("MAC address:       "@ + info.mac_address@ + "\n"@).is_suffix_of(report_of(info)),
        report_of(info) == "Chip type:         "@ + info.chip@ + match info.revision {
            Some((major, minor)) => " (revision v"@ + decimal_of(major as nat) + "."@
                + decimal_of(minor as nat) + ")"@,
            None => Seq::<char>::empty(),
        } + "\n"@ + "Crystal frequency: "@ + info.crystal_frequency@ + "\n"@
            + "Flash size:        "@ + info.flash_size@ + "\n"@ + "Features:          "@
            + joined(texts(info.features@), ", "@) + "\n"@ + "MAC address:       "@
            + info.mac_address@ + "\n"@,
{
    let r = report_of(info);
    let head = "Chip type:         "@ + info.chip@ + revision_note(info.revision) + "\n"@;
    let tail = "MAC address:       "@ + info.mac_address@ + "\n"@;
    let middle = "Crystal frequency: "@ + info.crystal_frequency@ + "\n"@ + "Flash size:        "@
        + info.flash_size@ + "\n"@ + "Features:          "@ + joined(texts(info.features@), ", "@)
        + "\n"@;
    assert(r =~= head + middle + tail);
    assert(head.is_prefix_of(r)) by {
        assert(r.subrange(0, head.len() as int) =~= head);
    }
    assert(tail.is_suffix_of(r)) by {
        assert(r.subrange((r.len() - tail.len()) as int, r.len() as int) =~= tail);
    }
    match info.revision {
        Some((major, minor)) => {
            assert(head =~= "Chip type:         "@ + info.chip@ + " (revision v"@ + decimal_of(
                major as nat,
            ) + "."@ + decimal_of(minor as nat) + ")"@ + "\n"@);
        },
        None => {
            assert(head =~= "Chip type:         "@ + info.chip@ + "\n"@);
        },
    }
}

} // verus!
