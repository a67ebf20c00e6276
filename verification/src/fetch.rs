//! One request from arrival to answer: the name is admitted, the store is
//! consulted, and on a miss the caller is told what to fetch; what comes
//! back is shaped and stored, or reported as a failure that leaves the
//! store alone.

use crate::cache::{looked_up, stored, TtlCache};
use crate::key::{key_of, mode_key, GameMode};
use crate::name::{admit_name, admitted_param, NameError};
use crate::record::{PlayerRecord, PlayerRecordView, UpstreamRecord};
use crate::transform::{transform, transformed};
use crate::upstream::{details_url, details_url_of, UpstreamFailure};
use vstd::prelude::*;

verus! {

/// The mode that the `game` parameter of a request selects; the
/// twenty-four-player pool where it is left out.
pub open spec fn mode_of(game: Option<&str>) -> GameMode {
    match game {
        Some(g) => GameMode::of(g@),
        None => GameMode::TwentyFourPlayers,
    }
}

/// The mode that the `game` parameter of a request selects.
pub fn requested_mode(game: Option<&str>) -> (mode: GameMode)
    ensures
        mode == mode_of(game),
{
    match game {
        Some(g) => GameMode::from_variant(g),
        None => GameMode::TwentyFourPlayers,
    }
}

/// What is to be done about a request once the store has been consulted.
#[derive(Debug, PartialEq)]
pub enum Step<R> {
    /// The name is missing or not legal: the request is refused, and nothing
    /// is asked of the ranking service.
    Reject(NameError),
    /// The store held a fresh record: it is the answer.
    Hit(PlayerRecord<R>),
    /// The store held nothing fresh: the record is to be fetched at `url`,
    /// and what comes back settled under `key`.
    Fetch { key: String, url: String },
}

/// Admits the request's name and consults the store. The store is not
/// changed.
pub fn begin<R: Copy>(
    cache: &TtlCache<R>,
    name: Option<&str>,
    game: Option<&str>,
    now: u64,
) -> (step: Step<R>)
    ensures
        match admitted_param(name) {
            Err(e) => step == Step::<R>::Reject(e),
            Ok(admitted) => {
                let mode = mode_of(game);
                match looked_up(cache@, key_of(admitted, mode), now) {
                    Some(record) => step matches Step::Hit(hit) && hit@ == record,
                    None => step matches Step::Fetch { key, url } && key@ == key_of(admitted, mode)
                        && url@ == details_url_of(admitted, mode),
                }
            },
        },
{
    match admit_name(name) {
        Err(e) => Step::Reject(e),
        Ok(admitted) => {
            let mode = requested_mode(game);
            let key = mode_key(admitted.as_str(), mode);
            match cache.lookup(key.as_str(), now) {
                Some(record) => Step::Hit(record),
                None => {
                    let url = details_url(admitted.as_str(), mode);
                    Step::Fetch { key, url }
                },
            }
        },
    }
}

/// The view of what a request ends in.
pub open spec fn outcome_view<R>(outcome: Result<PlayerRecord<R>, String>) -> Result<
    PlayerRecordView<R>,
    Seq<char>,
> {
    match outcome {
        Ok(record) => Ok(record@),
        Err(message) => Err(message@),
    }
}

/// Settles a fetch under `key`. A record that came back is shaped, stored
/// with the time `now`, and returned. A failure is returned as its message,
/// and the store stays as it was.
pub fn settle<R: Copy>(
    cache: &mut TtlCache<R>,
    key: String,
    reply: Result<UpstreamRecord<R>, UpstreamFailure>,
    now: u64,
) -> (outcome: Result<PlayerRecord<R>, String>)
    ensures
        match reply {
            Ok(upstream) => {
                &&& outcome_view(outcome) == Ok::<PlayerRecordView<R>, Seq<char>>(
                    transformed(upstream@),
                )
                &&& final(cache)@ == stored(old(cache)@, key@, transformed(upstream@), now)
            },
            Err(failure) => {
                &&& outcome_view(outcome) == Err::<PlayerRecordView<R>, Seq<char>>(failure.text())
                &&& final(cache)@ == old(cache)@
            },
        },
{
    match reply {
        Ok(upstream) => {
            let record = transform(upstream);
            let answer = record.clone();
            cache.store(key, record, now);
            Ok(answer)
        },
        Err(failure) => Err(failure.message()),
    }
}

/// The answer to a request: an HTTP status, and a record or an error message.
#[derive(Debug, PartialEq)]
pub enum Answer<R> {
    /// The record, with status 200.
    Found(PlayerRecord<R>),
    /// A fault of the client, with status 400.
    BadRequest(String),
    /// A failure behind the service, with status 500.
    ServerError(String),
}

impl<R> Answer<R> {
    /// The HTTP status of this answer.
    pub open spec fn status_code(self) -> u16 {
        match self {
            Answer::Found(_) => 200,
            Answer::BadRequest(_) => 400,
            Answer::ServerError(_) => 500,
        }
    }

    /// The HTTP status of this answer.
    pub fn status(&self) -> (r: u16)
        ensures
            r == self.status_code(),
    {
        match self {
            Answer::Found(_) => 200,
            Answer::BadRequest(_) => 400,
            Answer::ServerError(_) => 500,
        }
    }
}

/// The answer to a request whose name was not admitted.
pub fn refuse<R>(error: NameError) -> (answer: Answer<R>)
    ensures
        answer matches Answer::BadRequest(message) && message@ == error.text(),
{
    Answer::BadRequest(error.message().to_owned())
}

/// The answer to a request that ended in `outcome`.
pub fn answer<R>(outcome: Result<PlayerRecord<R>, String>) -> (answer: Answer<R>)
    ensures
        match outcome {
            Ok(record) => answer == Answer::Found(record),
            Err(message) => answer == Answer::<R>::ServerError(message),
        },
{
    match outcome {
        Ok(record) => Answer::Found(record),
        Err(message) => Answer::ServerError(message),
    }
}

} // verus!
