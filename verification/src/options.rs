//! Targeting options: which rooms a command includes and excludes, execution
//! flags, and the optional sender / target-server identifiers, together with
//! their wire form.
use vstd::prelude::*;

use crate::sid::{Sid, Uid};
use crate::wire::{mp_arr_head, mp_nil, mp_str, mp_str_array, mp_u8, write_arr_head, write_nil,
    write_str_list, write_u8};

verus! {

/// Flags that alter how the receiving servers apply a command.
#[derive(Clone, Copy, Debug, PartialEq, Eq, Structural)]
pub enum BroadcastFlags {
    /// Apply only on the receiving server itself.
    Local,
    /// Fan the command out to every matching connection.
    Broadcast,
    /// The event may be dropped when a client is not ready to receive it.
    Volatile,
}

impl BroadcastFlags {
    /// The bit this flag occupies in the packed flag byte.
    pub open spec fn spec_bit(self) -> u8 {
        match self {
            BroadcastFlags::Local => 0x01,
            BroadcastFlags::Broadcast => 0x02,
            BroadcastFlags::Volatile => 0x04,
        }
    }

    /// Executable form of [`BroadcastFlags::spec_bit`].
    pub fn bit(&self) -> (r: u8)
        ensures
            r == self.spec_bit(),
    {
        match self {
            BroadcastFlags::Local => 0x01,
            BroadcastFlags::Broadcast => 0x02,
            BroadcastFlags::Volatile => 0x04,
        }
    }
}

/// Mathematical model of [`BroadcastOptions`].
pub ghost struct OptsV {
    /// Packed flag bits.
    pub flags: u8,
    /// Rooms a command is addressed to, in the order they were added;
    /// an empty list addresses every room.
    pub rooms: Seq<Seq<char>>,
    /// Rooms excluded after inclusion, in the order they were added.
    pub except: Seq<Seq<char>>,
    /// The sender's session identifier, when one exists.
    pub sid: Option<Seq<u8>>,
    /// A target server, when the command is meant for one server only.
    pub server_id: Option<Seq<u8>>,
}

/// The options value every builder starts from: no flags, no rooms, no ids.
pub open spec fn empty_opts() -> OptsV {
    OptsV {
        flags: 0,
        rooms: Seq::empty(),
        except: Seq::empty(),
        sid: None,
        server_id: None,
    }
}

/// Which connections a command applies to, and how it is executed.
#[derive(Clone, Debug)]
pub struct BroadcastOptions {
    flags: u8,
    rooms: Vec<String>,
    except: Vec<String>,
    sid: Option<Sid>,
    server_id: Option<Uid>,
}

impl View for BroadcastOptions {
    type V = OptsV;

    closed spec fn view(&self) -> OptsV {
        OptsV {
            flags: self.flags,
            rooms: self.rooms.deep_view(),
            except: self.except.deep_view(),
            sid: match self.sid {
                Some(s) => Some(s@),
                None => None,
            },
            server_id: match self.server_id {
                Some(u) => Some(u@),
                None => None,
            },
        }
    }
}

impl Default for BroadcastOptions {
    /// Options with nothing set.
    fn default() -> (r: Self)
        ensures
            r@ == empty_opts(),
    {
        let r = BroadcastOptions {
            flags: 0,
            rooms: Vec::new(),
            except: Vec::new(),
            sid: None,
            server_id: None,
        };
        proof {
            assert(r@.rooms =~~= empty_opts().rooms);
            assert(r@.except =~~= empty_opts().except);
            assert(r@ =~~= empty_opts());
        }
        r
    }
}

impl BroadcastOptions {
    /// Options carrying only the sender's identifier.
    pub fn new(sid: Sid) -> (r: Self)
        ensures
            r@ == (OptsV { sid: Some(sid@), ..empty_opts() }),
    {
        let r = BroadcastOptions {
            flags: 0,
            rooms: Vec::new(),
            except: Vec::new(),
            sid: Some(sid),
            server_id: None,
        };
        proof {
            assert(r@.rooms =~~= empty_opts().rooms);
            assert(r@.except =~~= empty_opts().except);
            assert(r@ =~~= (OptsV { sid: Some(sid@), ..empty_opts() }));
        }
        r
    }

    /// Set a flag, keeping every other bit.
    pub fn add_flag(&mut self, flag: BroadcastFlags)
        ensures
            final(self)@ == (OptsV { flags: old(self)@.flags | flag.spec_bit(), ..old(self)@ }),
    {
        self.flags = self.flags | flag.bit();
    }

    /// Whether a flag is set.
    pub fn has_flag(&self, flag: BroadcastFlags) -> (r: bool)
        ensures
            r == (self@.flags & flag.spec_bit() == flag.spec_bit()),
    {
        self.flags & flag.bit() == flag.bit()
    }

    /// The packed flag byte.
    pub fn flags(&self) -> (r: u8)
        ensures
            r == self@.flags,
    {
        self.flags
    }

    /// Add rooms to the inclusion list, after the ones already there.
    pub fn extend_rooms(&mut self, rooms: Vec<String>)
        ensures
            final(self)@ == (OptsV { rooms: old(self)@.rooms + rooms.deep_view(), ..old(self)@ }),
    {
        extend_strings(&mut self.rooms, rooms);
    }

    /// Add rooms to the exclusion list, after the ones already there.
    pub fn extend_except(&mut self, rooms: Vec<String>)
        ensures
            final(self)@ == (OptsV {
                except: old(self)@.except + rooms.deep_view(),
                ..old(self)@
            }),
    {
        extend_strings(&mut self.except, rooms);
    }

    /// The inclusion list.
    pub fn rooms(&self) -> (r: &Vec<String>)
        ensures
            r.deep_view() == self@.rooms,
    {
        &self.rooms
    }

    /// The exclusion list.
    pub fn except(&self) -> (r: &Vec<String>)
        ensures
            r.deep_view() == self@.except,
    {
        &self.except
    }
}

/// Move every string of `src` to the end of `dst`, keeping both orders.
fn extend_strings(dst: &mut Vec<String>, src: Vec<String>)
    ensures
        final(dst).deep_view() == old(dst).deep_view() + src.deep_view(),
{
    let ghost sv = src.deep_view();
    let mut src = src;
    dst.append(&mut src);
    proof {
        assert(dst.deep_view() =~~= old(dst).deep_view() + sv);
    }
}

/// Wire form of an optional identifier: nil when absent, a sixteen-byte
/// string when present.
pub open spec fn opt_sid_bytes(s: Option<Seq<u8>>) -> Seq<u8> {
    match s {
        None => mp_nil(),
        Some(b) => mp_str(b),
    }
}

/// Wire form of the options record: a five-element array holding the flag
/// byte, both room lists, and the two optional identifiers.
pub open spec fn opts_bytes(o: OptsV) -> Seq<u8> {
    mp_arr_head(5) + mp_u8(o.flags) + mp_str_array(o.rooms) + mp_str_array(o.except)
        + opt_sid_bytes(o.sid) + opt_sid_bytes(o.server_id)
}

/// Append the wire form of the options record.
pub fn write_opts(out: &mut Vec<u8>, o: &BroadcastOptions)
    ensures
        final(out)@ == old(out)@ + opts_bytes(o@),
{
    write_arr_head(out, 5);
    write_u8(out, o.flags);
    write_str_list(out, &o.rooms);
    write_str_list(out, &o.except);
    match &o.sid {
        Some(s) => s.write_to(out),
        None => write_nil(out),
    }
    match &o.server_id {
        Some(u) => u.write_to(out),
        None => write_nil(out),
    }
    assert(out@ =~= old(out)@ + opts_bytes(o@));
}

} // verus!
