//! The supervisor's decisions: the subscription frame, the reaction to
//! each event the fetch loop can see, and the pipeline's configuration
//! constants. The transport, the timers and the channels live outside
//! the library; the surrounding task performs what these decisions say.

use vstd::prelude::*;
use vstd::string::*;

verus! {

/// Bound of the control channel from parser to supervisor.
pub const CONTROL_CHANNEL_CAPACITY: usize = 100;

/// Bound of the raw-text channel from ingress to parser.
pub const PARSER_CHANNEL_CAPACITY: usize = 100_000;

/// Bound of the typed-batch channel from parser to writer.
pub const WRITER_CHANNEL_CAPACITY: usize = 100_000;

/// Seconds between keepalive pings.
pub const KEEPALIVE_SECS: u64 = 30;

/// Seconds to wait before reconnecting after the fetch loop breaks.
pub const RECONNECT_DELAY_SECS: u64 = 5;

/// The public endpoint the transport connects to.
pub fn bybit_ws_url() -> (r: &'static str)
    ensures
        r@ == "wss://stream.bybit.com/v5/public/linear"@,
{
    "wss://stream.bybit.com/v5/public/linear"
}

/// An event the fetch loop can observe.
pub enum FetchEvent {
    /// An inbound text frame.
    Text(String),
    /// An inbound ping frame with its payload.
    Ping(Vec<u8>),
    /// An inbound close frame.
    Close,
    /// Any other inbound frame.
    OtherFrame,
    /// The keepalive timer fired.
    KeepaliveTick,
    /// The parser requested a reconnect on the control channel.
    ControlReconnect,
    /// The transport failed on read or write.
    TransportError,
}

/// What the supervisor does in response to one event.
pub enum FetchAction {
    /// Forward the text to the parser channel.
    ForwardToParser(String),
    /// Reply with a pong carrying the same payload.
    Pong(Vec<u8>),
    /// Send a keepalive ping.
    SendPing,
    /// Break the fetch loop; the outer loop waits and reconnects.
    BreakReconnect,
    /// Do nothing.
    Ignore,
}

/// The fetch loop's reaction to one event.
pub fn fetch_step(ev: FetchEvent) -> (r: FetchAction)
    ensures
        ev matches FetchEvent::Text(m) ==> r == FetchAction::ForwardToParser(m),
        ev matches FetchEvent::Ping(d) ==> r == FetchAction::Pong(d),
        ev is Close ==> r == FetchAction::BreakReconnect,
        ev is OtherFrame ==> r == FetchAction::Ignore,
        ev is KeepaliveTick ==> r == FetchAction::SendPing,
        ev is ControlReconnect ==> r == FetchAction::BreakReconnect,
        ev is TransportError ==> r == FetchAction::BreakReconnect,
{
    match ev {
        FetchEvent::Text(m) => FetchAction::ForwardToParser(m),
        FetchEvent::Ping(d) => FetchAction::Pong(d),
        FetchEvent::Close => FetchAction::BreakReconnect,
        FetchEvent::OtherFrame => FetchAction::Ignore,
        FetchEvent::KeepaliveTick => FetchAction::SendPing,
        FetchEvent::ControlReconnect => FetchAction::BreakReconnect,
        FetchEvent::TransportError => FetchAction::BreakReconnect,
    }
}

/// The views of a list of topic strings.
pub open spec fn strs_view(args: Seq<String>) -> Seq<Seq<char>> {
    Seq::new(args.len(), |i: int| args[i]@)
}

/// The quoted, comma-separated body of the args array.
pub open spec fn args_json(ts: Seq<Seq<char>>) -> Seq<char>
    decreases ts.len(),
{
    if ts.len() == 0 {
        Seq::empty()
    } else if ts.len() == 1 {
        seq!['"'] + ts[0] + seq!['"']
    } else {
        args_json(ts.drop_last()) + seq![','] + seq!['"'] + ts.last() + seq!['"']
    }
}

/// The whole subscription frame. The topic strings themselves must
/// not contain quotes or backslashes for this to be well-formed JSON;
/// the topic grammar never produces such characters.
pub open spec fn spec_subscribe_frame(ts: Seq<Seq<char>>) -> Seq<char> {
    "{\"op\":\"subscribe\",\"args\":["@ + args_json(ts) + "]}"@
}

/// Builds the subscription frame for a list of topic strings.
pub fn subscribe_frame(args: &Vec<String>) -> (r: String)
    ensures
        r@ == spec_subscribe_frame(strs_view(args@)),
{
    let ghost ts = strs_view(args@);
    let mut out = String::from_str("{\"op\":\"subscribe\",\"args\":[");
    let n = args.len();
    let mut i: usize = 0;
    proof {
        assert(ts.subrange(0, 0) =~= Seq::<Seq<char>>::empty());
    }
    while i < n
        invariant
            i <= n,
            n == args@.len(),
            ts == strs_view(args@),
            out@ == "{\"op\":\"subscribe\",\"args\":["@ + args_json(ts.subrange(0, i as int)),
        decreases n - i,
    {
        proof {
            assert(ts.subrange(0, i + 1).drop_last() =~= ts.subrange(0, i as int));
            assert(ts.subrange(0, i + 1).last() == ts[i as int]);
            assert(ts[i as int] == args@[i as int]@);
        }
        if i > 0 {
            out.append(",");
        }
        out.append("\"");
        out.append(args[i].as_str());
        out.append("\"");
        proof {
            assert(","@ =~= seq![',']) by {
                reveal_strlit(",");
            }
            assert("\""@ =~= seq!['"']) by {
                reveal_strlit("\"");
            }
            assert(out@ =~= "{\"op\":\"subscribe\",\"args\":["@ + args_json(
                ts.subrange(0, i + 1),
            ));
        }
        i = i + 1;
    }
    proof {
        assert(ts.subrange(0, n as int) =~= ts);
    }
    out.append("]}");
    out
}

} // verus!
