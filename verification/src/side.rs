use vstd::prelude::*;

verus! {

/// The end of a remote-desktop connection whose clipboard is being synchronised.
#[derive(PartialEq, Eq, Structural, Clone, Copy, Debug)]
pub enum ClipboardSide {
    Host,
    Client,
}

/// The owner marker written by a side: `0b01` for the host, `0b10` for the client.
pub open spec fn spec_owner_data(side: ClipboardSide) -> Seq<u8> {
    match side {
        ClipboardSide::Host => seq![1u8],
        ClipboardSide::Client => seq![2u8],
    }
}

/// Owner data marks the clipboard as set by this program when its first byte
/// has one of the two owner bits set.
pub open spec fn spec_is_owner(data: Seq<u8>) -> bool {
    data.len() > 0 && data[0] & 3u8 != 0u8
}

impl ClipboardSide {
    /// The owner marker this side attaches to clipboard content it writes.
    pub fn get_owner_data(&self) -> (data: Vec<u8>)
        ensures
            data@ == spec_owner_data(*self),
    {
        match self {
            ClipboardSide::Host => vec![1u8],
            ClipboardSide::Client => vec![2u8],
        }
    }

    /// Whether `data` is an owner marker written by either side.
    pub fn is_owner(&self, data: &[u8]) -> (owned: bool)
        ensures
            owned == spec_is_owner(data@),
    {
        if data.len() == 0 {
            return false;
        }
        data[0] & 3u8 != 0u8
    }

    /// The lower-case name of the side, as used in log lines.
    pub fn as_str(&self) -> (name: &'static str)
        ensures
            name@ == (match *self {
                ClipboardSide::Host => "host"@,
                ClipboardSide::Client => "client"@,
            }),
    {
        match self {
            ClipboardSide::Host => "host",
            ClipboardSide::Client => "client",
        }
    }
}

/// The owner marker written by any side is recognised as an owner marker,
/// whichever side reads it back.
pub proof fn lemma_owner_data_is_owned(writer: ClipboardSide)
    ensures
        spec_is_owner(spec_owner_data(writer)),
{
    assert(1u8 & 3u8 != 0u8) by (bit_vector);
    assert(2u8 & 3u8 != 0u8) by (bit_vector);
}

} // verus!
