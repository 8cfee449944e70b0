//! Emitter side of the socket.io cluster request protocol: a fluent builder
//! collects targeting options, wraps one command into a request envelope,
//! encodes the envelope in its MessagePack wire form and hands the bytes to a
//! user-supplied transport driver.
//!
//! The builder is an immutable-update value: every setter consumes it and
//! returns the extended value, and every terminal call consumes it for good.
//! Clone a partially configured builder to branch it into two independent
//! commands.
pub mod decode;
pub mod emit;
pub mod options;
pub mod requests;
pub mod sid;
pub mod wire;

pub use emit::{EmitError, Parser};

use vstd::prelude::*;
use vstd::string::StringExecFns;

use crate::options::{empty_opts, BroadcastFlags, BroadcastOptions, OptsV};
use crate::requests::{serialize, KindV, Packet, PacketV, RequestType, RequestV, ValueV,
    wire_bytes};
use crate::sid::sid_wf;

verus! {

/// The bridge between the emitter and the underlying pub-sub system: one
/// operation, publish bytes to a named channel. Implement it for your own
/// connection type; the library hands it one channel name and one serialized
/// envelope per terminal call and propagates its outcome unchanged.
pub trait Driver {
    /// The error type returned by the driver.
    type Error;

    /// Publish `data` on the channel named `channel`.
    fn emit(&self, channel: String, data: Vec<u8>) -> Result<(), Self::Error>;
}

/// Mathematical model of [`IoEmitter`].
pub ghost struct EmitterV {
    /// The targeting options collected so far.
    pub opts: OptsV,
    /// The namespace commands are addressed to.
    pub ns: Seq<char>,
    /// The channel-prefix override, when one was set.
    pub prefix: Option<Seq<char>>,
    /// The payload encoder chosen for this builder.
    pub parser: Parser,
}

/// The builder every emitter starts from: broadcast flag set, root namespace,
/// default channel prefix, text payload encoder.
pub open spec fn default_emitter() -> EmitterV {
    EmitterV {
        opts: OptsV { flags: 2, ..empty_opts() },
        ns: "/"@,
        prefix: None,
        parser: Parser::Common,
    }
}

/// The destination channel for a namespace under an optional prefix: the
/// prefix (or `socket.io` when none was set), `-request#`, the namespace, and
/// a closing `#`. A pure function of the prefix and the namespace alone.
pub open spec fn channel_spec(prefix: Option<Seq<char>>, ns: Seq<char>) -> Seq<char> {
    (match prefix {
        Some(p) => p,
        None => "socket.io"@,
    }) + "-request#"@ + ns + "#"@
}


/// The builder value after rooms are added to the inclusion list: the new
/// rooms follow the ones already there, and nothing else changes.
pub open spec fn with_rooms(e: EmitterV, rooms: Seq<Seq<char>>) -> EmitterV {
    EmitterV { opts: OptsV { rooms: e.opts.rooms + rooms, ..e.opts }, ..e }
}

/// The builder value after rooms are added to the exclusion list: the new
/// rooms follow the ones already there, and nothing else changes.
pub open spec fn with_except(e: EmitterV, rooms: Seq<Seq<char>>) -> EmitterV {
    EmitterV { opts: OptsV { except: e.opts.except + rooms, ..e.opts }, ..e }
}

/// The fluent builder for one cluster command: collects rooms, namespace,
/// channel prefix and encoder choice, then serializes and sends one request
/// envelope through a [`Driver`].
#[derive(Clone, Debug)]
pub struct IoEmitter {
    opts: BroadcastOptions,
    ns: String,
    prefix: Option<String>,
    parser: Parser,
}

impl View for IoEmitter {
    type V = EmitterV;

    closed spec fn view(&self) -> EmitterV {
        EmitterV {
            opts: self.opts@,
            ns: self.ns@,
            prefix: match self.prefix {
                Some(p) => Some(p@),
                None => None,
            },
            parser: self.parser,
        }
    }
}

impl Default for IoEmitter {
    /// The default builder: broadcast to every room of the root namespace,
    /// text payload encoder, default channel prefix.
    fn default() -> (r: Self)
        ensures
            r@ == default_emitter(),
    {
        let mut opts = BroadcastOptions::default();
        opts.add_flag(BroadcastFlags::Broadcast);
        proof {
            assert(0u8 | 2u8 == 2u8) by (bit_vector);
        }
        let r = IoEmitter { opts, ns: "/".to_owned(), prefix: None, parser: Parser::Common };
        proof {
            assert(r@ =~~= default_emitter());
        }
        r
    }
}

impl IoEmitter {
    /// A new builder with the default settings.
    pub fn new() -> (r: Self)
        ensures
            r@ == default_emitter(),
    {
        Self::default()
    }

    /// A new builder that encodes payloads with the binary encoder instead of
    /// the text one. Use it only against a cluster configured the same way.
    pub fn new_msgpack() -> (r: Self)
        ensures
            r@ == (EmitterV { parser: Parser::MsgPack, ..default_emitter() }),
    {
        let mut r = Self::default();
        r.parser = Parser::MsgPack;
        proof {
            assert(r@ =~~= (EmitterV { parser: Parser::MsgPack, ..default_emitter() }));
        }
        r
    }

    /// Replace the namespace; the last call wins. The default is `/`.
    pub fn of(self, ns: &str) -> (r: IoEmitter)
        ensures
            r@ == (EmitterV { ns: ns@, ..self@ }),
    {
        let ghost v0 = self@;
        let mut s = self;
        s.ns = ns.to_owned();
        proof {
            assert(s@ =~~= (EmitterV { ns: ns@, ..v0 }));
        }
        s
    }

    /// Add rooms to the inclusion set. Calls accumulate: rooms from earlier
    /// calls stay. The default, no room at all, addresses every room.
    pub fn to(self, rooms: Vec<String>) -> (r: IoEmitter)
        ensures
            r@ == with_rooms(self@, rooms.deep_view()),
    {
        let ghost v0 = self@;
        let ghost rv = rooms.deep_view();
        let mut s = self;
        s.opts.extend_rooms(rooms);
        proof {
            assert(s@ =~~= with_rooms(v0, rv));
        }
        s
    }

    /// Alias for [`IoEmitter::to`]: same inclusion behaviour, word for word.
    pub fn within(self, rooms: Vec<String>) -> (r: IoEmitter)
        ensures
            r@ == with_rooms(self@, rooms.deep_view()),
    {
        self.to(rooms)
    }

    /// Add rooms to the exclusion set, applied after inclusion. Calls
    /// accumulate.
    pub fn except(self, rooms: Vec<String>) -> (r: IoEmitter)
        ensures
            r@ == with_except(self@, rooms.deep_view()),
    {
        let ghost v0 = self@;
        let ghost rv = rooms.deep_view();
        let mut s = self;
        s.opts.extend_except(rooms);
        proof {
            assert(s@ =~~= with_except(v0, rv));
        }
        s
    }

    /// Replace the channel prefix; the last call wins. Use it when the
    /// cluster's adapter was configured with a custom prefix. The default is
    /// `socket.io`.
    pub fn prefix(self, prefix: &str) -> (r: IoEmitter)
        ensures
            r@ == (EmitterV { prefix: Some(prefix@), ..self@ }),
    {
        let ghost v0 = self@;
        let mut s = self;
        s.prefix = Some(prefix.to_owned());
        proof {
            assert(s@ =~~= (EmitterV { prefix: Some(prefix@), ..v0 }));
        }
        s
    }

    /// The request channel commands are published on, derived from the
    /// prefix and the namespace alone.
    pub fn get_channel(&self) -> (r: String)
        ensures
            r@ == channel_spec(self@.prefix, self@.ns),
    {
        let mut chan: String = match &self.prefix {
            Some(p) => p.clone(),
            None => "socket.io".to_owned(),
        };
        chan.append("-request#");
        chan.append(self.ns.as_str());
        chan.append("#");
        chan
    }
}

impl IoEmitter {
    /// The channel and serialized envelope of an add-to-rooms command:
    /// everything a terminal call hands to the transport.
    pub fn join_request(self, rooms: Vec<String>) -> (r: (String, Vec<u8>))
        ensures
            r.0@ == channel_spec(self@.prefix, self@.ns),
            exists|n: Seq<u8>, i: Seq<u8>|
                sid_wf(n) && sid_wf(i) && r.1@ == wire_bytes(
                    RequestV {
                        node_id: n,
                        id: i,
                        kind: KindV::AddSockets(rooms.deep_view()),
                        opts: self@.opts,
                    },
                ),
    {
        let chan = self.get_channel();
        let data = serialize(self.opts, RequestType::AddSockets(rooms));
        (chan, data)
    }

    /// The channel and serialized envelope of a remove-from-rooms command.
    pub fn leave_request(self, rooms: Vec<String>) -> (r: (String, Vec<u8>))
        ensures
            r.0@ == channel_spec(self@.prefix, self@.ns),
            exists|n: Seq<u8>, i: Seq<u8>|
                sid_wf(n) && sid_wf(i) && r.1@ == wire_bytes(
                    RequestV {
                        node_id: n,
                        id: i,
                        kind: KindV::DelSockets(rooms.deep_view()),
                        opts: self@.opts,
                    },
                ),
    {
        let chan = self.get_channel();
        let data = serialize(self.opts, RequestType::DelSockets(rooms));
        (chan, data)
    }

    /// The channel and serialized envelope of a disconnect command.
    pub fn disconnect_request(self) -> (r: (String, Vec<u8>))
        ensures
            r.0@ == channel_spec(self@.prefix, self@.ns),
            exists|n: Seq<u8>, i: Seq<u8>|
                sid_wf(n) && sid_wf(i) && r.1@ == wire_bytes(
                    RequestV {
                        node_id: n,
                        id: i,
                        kind: KindV::DisconnectSockets,
                        opts: self@.opts,
                    },
                ),
    {
        let chan = self.get_channel();
        let data = serialize(self.opts, RequestType::DisconnectSockets);
        (chan, data)
    }

    /// Encode `msg` under `event` with this builder's encoder and, only on
    /// success, give the channel and serialized broadcast envelope. An
    /// encoding failure comes back as the encoder's own error, with nothing
    /// built and nothing sent.
    pub fn emit_request<T: serde::Serialize + ?Sized>(self, event: &str, msg: &T) -> (r: Result<
        (String, Vec<u8>),
        socketioxide_core::parser::ParserError,
    >)
        ensures
            r matches Ok(cd) ==> cd.0@ == channel_spec(self@.prefix, self@.ns),
            r matches Ok(cd) ==> exists|n: Seq<u8>, i: Seq<u8>, v: ValueV|
                sid_wf(n) && sid_wf(i) && (self@.parser == Parser::Common ==> v is Str) && (
                self@.parser == Parser::MsgPack ==> v is Bytes) && cd.1@ == wire_bytes(
                    RequestV {
                        node_id: n,
                        id: i,
                        kind: KindV::Broadcast(PacketV { ns: self@.ns, data: v }),
                        opts: self@.opts,
                    },
                ),
    {
        let ghost me = self@;
        let encoded = match self.parser {
            Parser::Common => emit::encode_common(msg, event),
            Parser::MsgPack => emit::encode_msgpack(msg, event),
        };
        let value = match encoded {
            Ok(v) => v,
            Err(e) => {
                return Err(e);
            },
        };
        let ghost vv = value@;
        let chan = self.get_channel();
        let packet = Packet { ns: self.ns, data: value };
        let data = serialize(self.opts, RequestType::Broadcast(packet));
        proof {
            let (n, i) = choose|n: Seq<u8>, i: Seq<u8>|
                sid_wf(n) && sid_wf(i) && data@ == wire_bytes(
                    RequestV {
                        node_id: n,
                        id: i,
                        kind: KindV::Broadcast(PacketV { ns: me.ns, data: vv }),
                        opts: me.opts,
                    },
                );
            assert(sid_wf(n) && sid_wf(i) && (me.parser == Parser::Common ==> vv is Str) && (
            me.parser == Parser::MsgPack ==> vv is Bytes) && data@ == wire_bytes(
                RequestV {
                    node_id: n,
                    id: i,
                    kind: KindV::Broadcast(PacketV { ns: me.ns, data: vv }),
                    opts: me.opts,
                },
            ));
        }
        Ok((chan, data))
    }

    /// Make the selected connections join `rooms`: serialize an add-to-rooms
    /// envelope and publish it on this builder's channel; the driver's
    /// outcome is returned unchanged.
    pub fn join<D: Driver>(self, rooms: Vec<String>, driver: &D) -> Result<(), D::Error> {
        let (chan, data) = self.join_request(rooms);
        driver.emit(chan, data)
    }

    /// Make the selected connections leave `rooms`: serialize a
    /// remove-from-rooms envelope and publish it on this builder's channel;
    /// the driver's outcome is returned unchanged.
    pub fn leave<D: Driver>(self, rooms: Vec<String>, driver: &D) -> Result<(), D::Error> {
        let (chan, data) = self.leave_request(rooms);
        driver.emit(chan, data)
    }

    /// Disconnect the selected connections from their namespace: serialize a
    /// disconnect envelope and publish it on this builder's channel; the
    /// driver's outcome is returned unchanged.
    pub fn disconnect<D: Driver>(self, driver: &D) -> Result<(), D::Error> {
        let (chan, data) = self.disconnect_request();
        driver.emit(chan, data)
    }

    /// Broadcast `msg` under `event` to the selected connections: encode the
    /// payload with this builder's encoder and, only on success, build and
    /// publish a broadcast envelope. An encoding failure is returned as a
    /// parser error before the transport is contacted; a transport failure is
    /// handed back unchanged.
    pub fn emit<D: Driver, T: serde::Serialize + ?Sized>(
        self,
        event: &str,
        msg: &T,
        driver: &D,
    ) -> Result<(), EmitError<D>> {
        let pair = match self.emit_request(event, msg) {
            Ok(p) => p,
            Err(e) => {
                return Err(EmitError::Parser(e));
            },
        };
        match driver.emit(pair.0, pair.1) {
            Ok(u) => Ok(u),
            Err(e) => Err(EmitError::Driver(e)),
        }
    }
}


/// The set of elements of the concatenation of two sequences is the union of
/// their element sets.
pub proof fn lemma_concat_to_set<A>(s: Seq<A>, t: Seq<A>)
    ensures
        (s + t).to_set() == s.to_set().union(t.to_set()),
{
    assert forall|x: A| (s + t).to_set().contains(x) implies s.to_set().union(
        t.to_set(),
    ).contains(x) by {
        let i = choose|i: int| 0 <= i < (s + t).len() && (s + t)[i] == x;
        if i < s.len() {
            assert(s[i] == x);
        } else {
            assert(t[i - s.len()] == x);
        }
    }
    assert forall|x: A| s.to_set().union(t.to_set()).contains(x) implies (s
        + t).to_set().contains(x) by {
        if s.contains(x) {
            let i = choose|i: int| 0 <= i < s.len() && s[i] == x;
            assert((s + t)[i] == x);
        } else {
            let i = choose|i: int| 0 <= i < t.len() && t[i] == x;
            assert((s + t)[s.len() + i] == x);
        }
    }
    assert((s + t).to_set() =~= s.to_set().union(t.to_set()));
}

/// Law: inclusion accumulates, it never replaces. Adding rooms `a` and then
/// rooms `b` to any builder leaves every earlier room in place: the final
/// inclusion list is the concatenation of all three parts and, as a set, the
/// union. `to` and `within` promise the same resulting builder
/// (`with_rooms`), so the law holds for either spelling and any mix of the
/// two.
pub proof fn lemma_inclusion_accumulates(e: EmitterV, a: Seq<Seq<char>>, b: Seq<Seq<char>>)
    ensures
        with_rooms(with_rooms(e, a), b).opts.rooms == e.opts.rooms + a + b,
        with_rooms(with_rooms(e, a), b).opts.rooms.to_set() == e.opts.rooms.to_set().union(
            a.to_set(),
        ).union(b.to_set()),
        with_rooms(with_rooms(e, a), b) == (EmitterV {
            opts: OptsV { rooms: e.opts.rooms + a + b, ..e.opts },
            ..e
        }),
{
    assert(with_rooms(with_rooms(e, a), b).opts.rooms =~~= e.opts.rooms + a + b);
    lemma_concat_to_set(e.opts.rooms + a, b);
    lemma_concat_to_set(e.opts.rooms, a);
}

} // verus!
