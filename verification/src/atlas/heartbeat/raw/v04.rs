//! Version 04 of the heartbeats was installed in September 2018.
//!
//! It is version 03 with one more byte for each EFOY.

use crate::atlas::cursor::Cursor;
use crate::atlas::heartbeat::raw::v03::{BAD, COULD_NOT_OPEN, GOOD};
use crate::atlas::heartbeat::raw::{
    fail, lemma_repeated_next, or_eof, plain, read_as, repeated, v03, viewed, Error, ErrorView,
};
use vstd::prelude::*;

verus! {

/// Information about one efoy.
#[derive(Clone, Copy, Debug, Default, PartialEq, Eq, Structural)]
pub struct Efoy {
    /// The same information that was transmitted in version 03.
    pub efoy: v03::Efoy,
    /// The active cartridge port.
    pub active_cartridge_port: u8,
}

impl Efoy {
    /// The number of bytes that an EFOY takes.
    pub open spec fn size() -> int {
        24
    }

    /// The EFOY that the first 24 bytes of `bytes` describe.
    pub open spec fn decode(bytes: Seq<u8>) -> Efoy {
        Efoy { efoy: v03::Efoy::decode(bytes), active_cartridge_port: bytes[23] }
    }

    /// What reading an EFOY off `input` gives.
    pub open spec fn parse(input: Seq<u8>) -> Result<(Efoy, int), ErrorView> {
        if input.len() >= Efoy::size() {
            Ok((Efoy::decode(input), Efoy::size()))
        } else {
            Err(ErrorView::UnexpectedEof)
        }
    }

    /// Reads an EFOY.
    pub fn read_from(cursor: &mut Cursor) -> (r: Result<Efoy, Error>)
        ensures
            read_as(*old(cursor), *final(cursor), plain(r), Efoy::parse(old(cursor).remaining())),
    {
        let bytes: &[u8] = or_eof(cursor.take(24))?;
        proof {
            v03::Efoy::lemma_decode_prefix(old(cursor).remaining(), 24);
        }
        Ok(Efoy { efoy: v03::Efoy::from_bytes(bytes), active_cartridge_port: bytes[23] })
    }
}

/// Information about the efoys.
#[derive(Clone, Copy, Debug, PartialEq, Eq)]
pub struct Efoys(pub [Option<Efoy>; 2]);

impl View for Efoys {
    type V = Seq<Option<Efoy>>;

    open spec fn view(&self) -> Seq<Option<Efoy>> {
        self.0@
    }
}

impl Efoys {
    /// What reading the slot of one EFOY off `input` gives: a status byte, and
    /// the EFOY behind it if the byte says that it responded.
    pub open spec fn slot(input: Seq<u8>) -> Result<(Option<Efoy>, int), ErrorView> {
        if input.len() < 1 {
            Err(ErrorView::UnexpectedEof)
        } else if input[0] == GOOD {
            match Efoy::parse(input.skip(1)) {
                Ok((efoy, used)) => Ok((Some(efoy), 1 + used)),
                Err(e) => Err(e),
            }
        } else if input[0] == BAD || input[0] == COULD_NOT_OPEN {
            Ok((None, 1))
        } else {
            Err(ErrorView::UnexpectedByte(input[0]))
        }
    }

    /// The reader of one slot, as a value.
    pub open spec fn slot_reader() -> spec_fn(Seq<u8>) -> Result<(Option<Efoy>, int), ErrorView> {
        |bytes: Seq<u8>| Efoys::slot(bytes)
    }

    /// What reading the EFOYs off `input` gives: two slots.
    pub open spec fn parse(input: Seq<u8>) -> Result<(Seq<Option<Efoy>>, int), ErrorView> {
        repeated(Efoys::slot_reader(), input, 2)
    }

    /// Reads the slot of one EFOY.
    pub fn read_slot(cursor: &mut Cursor) -> (r: Result<Option<Efoy>, Error>)
        ensures
            read_as(*old(cursor), *final(cursor), plain(r), Efoys::slot(old(cursor).remaining())),
    {
        let status: u8 = or_eof(cursor.read_u8())?;
        let ghost after_status = cursor.remaining();
        if status == GOOD {
            let efoy: Efoy = Efoy::read_from(cursor)?;
            assert(after_status.skip(Efoy::size()) =~= old(cursor).remaining().skip(
                1 + Efoy::size(),
            ));
            Ok(Some(efoy))
        } else if status == BAD || status == COULD_NOT_OPEN {
            Ok(None)
        } else {
            fail(cursor, Error::UnexpectedByte(status))
        }
    }

    /// Reads EFOY data.
    pub fn read_from(cursor: &mut Cursor) -> (r: Result<Efoys, Error>)
        ensures
            read_as(*old(cursor), *final(cursor), viewed(r), Efoys::parse(old(cursor).remaining())),
    {
        let ghost input = cursor.remaining();
        let ghost one = Efoys::slot_reader();
        proof {
            lemma_repeated_next(one, input, 0);
            lemma_repeated_next(one, input, 1);
            assert(input.skip(0) =~= input);
        }
        let first: Option<Efoy> = Efoys::read_slot(cursor)?;
        let ghost used = Efoys::slot(input)->Ok_0.1;
        let second: Option<Efoy> = Efoys::read_slot(cursor)?;
        let ghost more = Efoys::slot(input.skip(used))->Ok_0.1;
        assert(input.skip(used).skip(more) =~= input.skip(used + more));
        let slots: [Option<Efoy>; 2] = [first, second];
        assert(slots@ =~= Seq::<Option<Efoy>>::empty().push(first).push(second));
        Ok(Efoys(slots))
    }
}

} // verus!
