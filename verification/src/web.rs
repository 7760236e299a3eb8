//! The web API: routes, their JSON answers, and their effect on the life
//! cycle and on the animation store.

use vstd::prelude::*;
use crate::fsm::{Event, Phase, PovState, next_phase, phase_name};
use crate::animation::Keyframe;
use crate::pool::{AnimationPool, PoolModel, animation_pages, upload_outcome, next_count};
use crate::wire::{decode_animation, postcard_decoding, animation_wire, pages_wire};

verus! {

/// The character of a decimal digit.
pub open spec fn digit_char(d: nat) -> char {
    (48 + d) as char
}

/// The decimal text of a number, without leading zeros.
pub open spec fn decimal(n: nat) -> Seq<char>
    decreases n,
{
    if n < 10 {
        seq![digit_char(n)]
    } else {
        decimal(n / 10).push(digit_char(n % 10))
    }
}

/// `true` or `false`.
pub open spec fn bool_text(b: bool) -> Seq<char> {
    if b { "true"@ } else { "false"@ }
}

fn digit_text(d: u64) -> (text: &'static str)
    requires
        d < 10,
    ensures
        text@ == seq![digit_char(d as nat)],
{
    proof {
        reveal_strlit("0");
        reveal_strlit("1");
        reveal_strlit("2");
        reveal_strlit("3");
        reveal_strlit("4");
        reveal_strlit("5");
        reveal_strlit("6");
        reveal_strlit("7");
        reveal_strlit("8");
        reveal_strlit("9");
    }
    let t = match d {
        0 => "0",
        1 => "1",
        2 => "2",
        3 => "3",
        4 => "4",
        5 => "5",
        6 => "6",
        7 => "7",
        8 => "8",
        _ => "9",
    };
    assert(t@ =~= seq![digit_char(d as nat)]);
    t
}

/// Appends the decimal text of `n`.
pub fn append_decimal(out: &mut String, n: u64)
    ensures
        final(out)@ == old(out)@ + decimal(n as nat),
    decreases n,
{
    if n >= 10 {
        append_decimal(out, n / 10);
    }
    out.append(digit_text(n % 10));
    proof {
        if n >= 10 {
            assert(decimal(n as nat) == decimal((n / 10) as nat).push(digit_char((n % 10) as nat)));
        }
    }
}

fn append_bool(out: &mut String, b: bool)
    ensures
        final(out)@ == old(out)@ + bool_text(b),
{
    if b {
        out.append("true");
    } else {
        out.append("false");
    }
}

/// The status document of the display.
pub open spec fn status_json(phase: Phase, anim_count: u32, pages: nat) -> Seq<char> {
    "{\"state\":\""@ + phase_name(phase) + "\",\"is_running\":"@ + bool_text(phase == Phase::Running)
        + ",\"is_loading\":"@ + bool_text(phase == Phase::Loading) + ",\"animation_count\":"@
        + decimal(anim_count as nat) + ",\"pages\":"@ + decimal(pages) + "}"@
}

/// After an accepted upload of `pages`, the status document ends by
/// giving the upload count (one more than before, wrapping) as
/// `animation_count` and the number of uploaded pages as `pages`.
pub proof fn lemma_status_after_upload(phase: Phase, old: PoolModel, pages: Seq<Seq<Keyframe>>)
    requires
        old.wf(),
        upload_outcome(old, pages).0 is Ok,
    ensures
        exists|head: Seq<char>|
            #[trigger] status_json(
                phase,
                upload_outcome(old, pages).1.anim_count,
                upload_outcome(old, pages).1.page_count,
            ) == head + ",\"animation_count\":"@ + decimal(next_count(old.anim_count) as nat)
                + ",\"pages\":"@ + decimal(pages.len()) + "}"@,
{
    let new = upload_outcome(old, pages).1;
    let head = "{\"state\":\""@ + phase_name(phase) + "\",\"is_running\":"@ + bool_text(
        phase == Phase::Running,
    ) + ",\"is_loading\":"@ + bool_text(phase == Phase::Loading);
    assert(status_json(phase, new.anim_count, new.page_count) == head + ",\"animation_count\":"@
        + decimal(next_count(old.anim_count) as nat) + ",\"pages\":"@ + decimal(pages.len()) + "}"@);
}

/// JSON answers and static content of the dashboard.
pub struct WebService;

impl WebService {
    /// The status document: state name, whether running or loading, the
    /// number of uploads and the number of pages.
    pub fn json_status(state: &PovState, pool: &AnimationPool) -> (json: String)
        ensures
            json@ == status_json(state.phase(), pool@.anim_count, pool@.page_count),
    {
        let name = state.state_name();
        let count = pool.animation_count();
        let pages = pool.page_count();
        let mut out = String::new();
        out.append("{\"state\":\"");
        out.append(name);
        out.append("\",\"is_running\":");
        append_bool(&mut out, state.is_running());
        out.append(",\"is_loading\":");
        append_bool(&mut out, state.is_loading());
        out.append(",\"animation_count\":");
        append_decimal(&mut out, count as u64);
        out.append(",\"pages\":");
        append_decimal(&mut out, pages as u64);
        out.append("}");
        out
    }
}

/// The API routes.
#[derive(Debug, Clone, Copy, PartialEq, Eq, Structural)]
pub enum ApiRoute {
    Status,
    Start,
    Stop,
    Upload,
    NotFound,
}

/// Answer to a route that does not exist.
pub open spec fn not_found_json() -> Seq<char> {
    "{\"error\":\"not found\"}"@
}

/// Answer to a route used with the wrong method.
pub open spec fn method_not_allowed_json() -> Seq<char> {
    "{\"error\":\"method not allowed\"}"@
}

/// Answer to a failed upload, with its message.
pub open spec fn upload_error_json(message: Seq<char>) -> Seq<char> {
    "{\"status\":\"error\",\"message\":\""@ + message + "\"}"@
}

/// Answer to an accepted upload.
pub open spec fn upload_ok_json(pages: nat) -> Seq<char> {
    "{\"status\":\"ok\",\"pages\":"@ + decimal(pages) + "}"@
}

/// How an upload of `body` is answered and what it does to a pool in
/// state `old`: bytes postcard cannot read leave the pool as it is and are
/// answered with the text of postcard's error for them; otherwise the decoded pages
/// are uploaded and the answer gives the page count or the refusal.
pub open spec fn upload_answered(old: PoolModel, new: PoolModel, body: Seq<u8>, json: Seq<char>) -> bool {
    match postcard_decoding(body) {
        Err(message) => new == old && json == upload_error_json(message),
        Ok(wire) => exists|pages: Seq<Seq<Keyframe>>|
            {
                &&& pages_wire(pages) == wire
                &&& new == #[trigger] upload_outcome(old, pages).1
                &&& json == match upload_outcome(old, pages).0 {
                    Ok(()) => upload_ok_json(pages.len()),
                    Err(e) => upload_error_json(e.spec_text()),
                }
            },
    }
}

/// Dispatches API requests.
pub struct ApiRouter;

impl ApiRouter {
    /// Answers a GET request.
    pub fn handle_get(route: &ApiRoute, state: &PovState, pool: &AnimationPool) -> (json: String)
        ensures
            json@ == (match *route {
                ApiRoute::Status => status_json(state.phase(), pool@.anim_count, pool@.page_count),
                ApiRoute::NotFound => not_found_json(),
                _ => method_not_allowed_json(),
            }),
    {
        match route {
            ApiRoute::Status => WebService::json_status(state, pool),
            ApiRoute::NotFound => {
                let mut out = String::new();
                out.append("{\"error\":\"not found\"}");
                out
            },
            _ => {
                let mut out = String::new();
                out.append("{\"error\":\"method not allowed\"}");
                out
            },
        }
    }

    /// Answers a POST request. `Start` and `Stop` feed the event to the
    /// state machine; `Upload` reads the body as a postcard animation and
    /// loads it into the pool, answering with the page count or an error;
    /// other routes are refused. The state machine is only touched by
    /// `Start` and `Stop`, the pool only by `Upload`.
    pub fn handle_post(
        route: &ApiRoute,
        state: &mut PovState,
        pool: &mut AnimationPool,
        body: Option<&[u8]>,
    ) -> (json: String)
        ensures
            *route == ApiRoute::Start ==> final(state).phase() == next_phase(old(state).phase(), Event::Start)
                && json@ == "{\"status\":\"started\"}"@,
            *route == ApiRoute::Stop ==> final(state).phase() == next_phase(old(state).phase(), Event::Stop)
                && json@ == "{\"status\":\"stopped\"}"@,
            *route != ApiRoute::Start && *route != ApiRoute::Stop ==> final(state).phase() == old(state).phase(),
            *route != ApiRoute::Upload ==> final(pool)@ == old(pool)@,
            *route == ApiRoute::Status || *route == ApiRoute::NotFound ==> json@ == method_not_allowed_json(),
            *route == ApiRoute::Upload && body is None ==> final(pool)@ == old(pool)@
                && json@ == upload_error_json("no body"@),
            *route == ApiRoute::Upload && body is Some ==> upload_answered(
                old(pool)@,
                final(pool)@,
                body->Some_0@,
                json@,
            ),
    {
        match route {
            ApiRoute::Start => {
                state.handle(&Event::Start);
                let mut out = String::new();
                out.append("{\"status\":\"started\"}");
                out
            },
            ApiRoute::Stop => {
                state.handle(&Event::Stop);
                let mut out = String::new();
                out.append("{\"status\":\"stopped\"}");
                out
            },
            ApiRoute::Upload => {
                let mut out = String::new();
                match body {
                    Some(data) => {
                        match decode_animation(data) {
                            Ok(anim) => {
                                let ghost pages = animation_pages(anim);
                                proof {
                                    assert(pages_wire(pages) =~= animation_wire(anim));
                                }
                                match pool.set_animation(anim) {
                                    Ok(()) => {
                                        out.append("{\"status\":\"ok\",\"pages\":");
                                        append_decimal(&mut out, pool.page_count() as u64);
                                        out.append("}");
                                    },
                                    Err(e) => {
                                        out.append("{\"status\":\"error\",\"message\":\"");
                                        out.append(e.message());
                                        out.append("\"}");
                                    },
                                }
                            },
                            Err(e) => {
                                out.append("{\"status\":\"error\",\"message\":\"");
                                out.append(e.detail.as_str());
                                out.append("\"}");
                                assert(out@ == upload_error_json(e.detail@));
                            },
                        }
                    },
                    None => {
                        out.append("{\"status\":\"error\",\"message\":\"");
                        out.append("no body");
                        out.append("\"}");
                    },
                }
                out
            },
            _ => {
                let mut out = String::new();
                out.append("{\"error\":\"method not allowed\"}");
                out
            },
        }
    }
}

/// First half of the upload route: pauses the display by entering
/// `Loading` (from idle or running; an error state stays as it is).
pub fn begin_upload(state: &mut PovState)
    ensures
        final(state).phase() == next_phase(old(state).phase(), Event::Upload),
{
    state.handle(&Event::Upload);
}

/// Second half of the upload route: loads the body as the upload route
/// does, then resumes the display with `Start`. After `begin_upload`, an
/// idle or running display ends up running, one in error stays in error.
pub fn finish_upload(state: &mut PovState, pool: &mut AnimationPool, body: &[u8]) -> (json: String)
    ensures
        final(state).phase() == next_phase(old(state).phase(), Event::Start),
        upload_answered(old(pool)@, final(pool)@, body@, json@),
{
    let json = ApiRouter::handle_post(&ApiRoute::Upload, state, pool, Some(body));
    state.handle(&Event::Start);
    json
}

} // verus!
