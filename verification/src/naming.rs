//! The per-document file name suffix the collaborator appends to the user's
//! base name: channel and alternative ids in source order, a marker for the
//! single-word dialect, and the SRT extension.

use vstd::prelude::*;
use vstd::string::StringExecFns;
use crate::timecode::decimal_string;
use crate::timecode::spec_decimal;

verus! {

/// The suffix for the document of channel `channel`, alternative
/// `alternative` (both 0-based): `-channel-{c}-alternative-{a}.srt`, with
/// `-beast` before the extension for the single-word dialect.
pub open spec fn spec_file_suffix(channel: nat, alternative: nat, beast: bool) -> Seq<char> {
    ("-channel-")@ + spec_decimal(channel) + ("-alternative-")@ + spec_decimal(alternative) + (
    if beast {
        ("-beast")@
    } else {
        Seq::empty()
    }) + (".srt")@
}

/// Builds the file name suffix for one rendered document.
pub fn file_suffix(channel: u64, alternative: u64, beast: bool) -> (res: String)
    ensures
        res@ == spec_file_suffix(channel as nat, alternative as nat, beast),
{
    let mut res = "-channel-".to_owned();
    let c = decimal_string(channel);
    res.append(c.as_str());
    res.append("-alternative-");
    let a = decimal_string(alternative);
    res.append(a.as_str());
    if beast {
        res.append("-beast");
    }
    res.append(".srt");
    proof {
        assert(res@ =~= spec_file_suffix(channel as nat, alternative as nat, beast));
    }
    res
}

} // verus!
