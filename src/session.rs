use vstd::prelude::*;

use crate::board::CellOccupiedError;
use crate::cell::{Cell, CellIndex};
use crate::game::{consistent, initial_model, next, GameModel, GameState, MoveError};
use crate::wire::{
    decode_model, decode_move, decode_move_spec, decode_snapshot, encode_model, encode_move,
    encode_snapshot, move_body, RequestError,
};

verus! {

/// Why the authority refused a move request.
#[derive(Clone, Copy, Debug, PartialEq, Eq, Structural)]
pub enum PutError {
    /// The body names no position.
    BadRequest(RequestError),
    /// The move is not legal in the current game.
    Rejected(MoveError),
}

/// What the authority answers to a move request `body` on game `m`: the game after it, and
/// either the new snapshot or the reason for refusal.
pub open spec fn put_spec(m: GameModel, body: Seq<u8>) -> (GameModel, Result<Seq<u8>, PutError>) {
    match decode_move_spec(body) {
        Err(e) => (m, Err(PutError::BadRequest(e))),
        Ok(index) => {
            let (after, res) = next(m, index);
            match res {
                Ok(_) => (after, Ok(encode_model(after))),
                Err(e) => (after, Err(PutError::Rejected(e))),
            }
        },
    }
}

/// The authority of a networked game: it owns the one true game, answers reads with
/// snapshots and validates every proposed move against its own current state.
pub struct Session {
    game: GameState,
}

impl View for Session {
    type V = GameModel;

    closed spec fn view(&self) -> GameModel {
        self.game@
    }
}

impl Session {
    /// A session with a fresh game.
    pub fn new() -> (r: Session)
        ensures
            r@ == initial_model(),
            consistent(r@),
    {
        Session { game: GameState::new() }
    }

    /// The answer to a read: the snapshot of the current game.
    pub fn get(&self) -> (r: Vec<u8>)
        ensures
            r@ == encode_model(self@),
    {
        encode_snapshot(&self.game)
    }

    /// The answer to a move request: the body names a position as one ASCII digit; the
    /// move is applied by the game's own rules, and the new snapshot is returned, or the
    /// reason the body or the move was refused, with the game unchanged.
    pub fn put(&mut self, body: &[u8]) -> (r: Result<Vec<u8>, PutError>)
        ensures
            final(self)@ == put_spec(old(self)@, body@).0,
            r is Ok <==> put_spec(old(self)@, body@).1 is Ok,
            r is Ok ==> r->Ok_0@ == put_spec(old(self)@, body@).1->Ok_0,
            r is Err ==> r->Err_0 == put_spec(old(self)@, body@).1->Err_0,
            consistent(old(self)@) ==> consistent(final(self)@),
    {
        let index = match decode_move(body) {
            Ok(index) => index,
            Err(e) => {
                return Err(PutError::BadRequest(e));
            },
        };
        match self.game.apply_move(index) {
            Ok(()) => Ok(encode_snapshot(&self.game)),
            Err(e) => Err(PutError::Rejected(e)),
        }
    }

    /// Starts a new game in this session.
    pub fn restart(&mut self)
        ensures
            final(self)@ == initial_model(),
            consistent(final(self)@),
    {
        self.game.reset();
    }
}

/// A move proposal that was accepted once is refused when sent again: as occupied while
/// the game goes on, as too late once it has ended.
pub proof fn lemma_repeated_proposal_refused(m: GameModel, index: CellIndex)
    requires
        consistent(m),
        put_spec(m, move_body(index)).1 is Ok,
    ensures
        ({
            let after = put_spec(m, move_body(index)).0;
            let again = put_spec(after, move_body(index));
            &&& again.0 == after
            &&& again.1 == if after.outcome is InProgress {
                Err::<Seq<u8>, PutError>(
                    PutError::Rejected(MoveError::CellOccupied(CellOccupiedError { index })),
                )
            } else {
                Err::<Seq<u8>, PutError>(PutError::Rejected(MoveError::GameAlreadyOver))
            }
        }),
{
    crate::wire::lemma_move_round_trip(index);
    let i = index.spec_offset();
    assert(next(m, index).0.cells[i] != Cell::Empty);
}

/// A fetch or a move request that never came back.
#[derive(Clone, Copy, Debug, PartialEq, Eq, Structural)]
pub struct TransportError;

/// The client's view of a session: its last good snapshot, whether a move proposal is
/// out, and the number of the session it belongs to.
pub ghost struct ClientModel {
    pub last: Option<GameModel>,
    pub in_flight: bool,
    pub epoch: u64,
}

/// The client side of a networked game. It never changes the game itself: it keeps the
/// last snapshot that arrived whole, sends at most one move proposal at a time, and drops
/// answers to requests made before the session was abandoned.
pub struct SyncClient {
    last: Option<GameState>,
    in_flight: bool,
    epoch: u64,
}

impl View for SyncClient {
    type V = ClientModel;

    closed spec fn view(&self) -> ClientModel {
        ClientModel {
            last: match self.last {
                Some(g) => Some(g@),
                None => None,
            },
            in_flight: self.in_flight,
            epoch: self.epoch,
        }
    }
}

impl SyncClient {
    /// A client with no snapshot yet and nothing out.
    pub fn new() -> (r: SyncClient)
        ensures
            r@ == (ClientModel { last: None, in_flight: false, epoch: 0 }),
    {
        SyncClient { last: None, in_flight: false, epoch: 0 }
    }

    /// The number to attach to requests made now.
    pub fn epoch(&self) -> (r: u64)
        ensures
            r == self@.epoch,
    {
        self.epoch
    }

    pub fn in_flight(&self) -> (r: bool)
        ensures
            r == self@.in_flight,
    {
        self.in_flight
    }

    /// The last snapshot that arrived whole, to be rendered.
    pub fn snapshot(&self) -> (r: Option<GameState>)
        ensures
            r is Some <==> self@.last is Some,
            r is Some ==> r->0@ == self@.last->0,
    {
        self.last
    }

    /// Takes the answer to a fetch made under `epoch`. A well-formed snapshot of the current
    /// session replaces the last one and `true` is returned. A transport failure, a
    /// malformed payload or an answer from an abandoned session leaves the client as it was,
    /// to retry.
    pub fn on_fetch(&mut self, epoch: u64, payload: Result<Vec<u8>, TransportError>) -> (r: bool)
        ensures
            r <==> epoch == old(self)@.epoch && payload is Ok && decode_model(payload->Ok_0@) is Some,
            r ==> final(self)@ == (ClientModel {
                last: decode_model(payload->Ok_0@),
                ..old(self)@
            }),
            !r ==> final(self)@ == old(self)@,
    {
        if epoch != self.epoch {
            return false;
        }
        match payload {
            Ok(bytes) => match decode_snapshot(bytes.as_slice()) {
                Ok(game) => {
                    self.last = Some(game);
                    true
                },
                Err(_) => false,
            },
            Err(_) => false,
        }
    }

    /// Asks to propose a move at `index`. While another proposal is out nothing is sent;
    /// otherwise the request body is returned and the proposal counts as out. The client's
    /// snapshot is not touched: only a later fetch shows the move.
    pub fn propose(&mut self, index: CellIndex) -> (r: Option<Vec<u8>>)
        ensures
            old(self)@.in_flight ==> r is None && final(self)@ == old(self)@,
            !old(self)@.in_flight ==> r is Some && r->0@ == move_body(index) && final(self)@ == (
            ClientModel { in_flight: true, ..old(self)@ }),
    {
        if self.in_flight {
            return None;
        }
        self.in_flight = true;
        Some(encode_move(index))
    }

    /// Takes the end of a proposal made under `epoch`, whatever its answer: the next one
    /// may be sent. An end from an abandoned session changes nothing.
    pub fn on_proposal_done(&mut self, epoch: u64)
        ensures
            epoch == old(self)@.epoch ==> final(self)@ == (ClientModel {
                in_flight: false,
                ..old(self)@
            }),
            epoch != old(self)@.epoch ==> final(self)@ == old(self)@,
    {
        if epoch == self.epoch {
            self.in_flight = false;
        }
    }

    /// Leaves the session: the snapshot is dropped, nothing counts as out, and answers to
    /// requests made before are ignored from now on.
    pub fn abandon(&mut self)
        ensures
            final(self)@ == (ClientModel {
                last: None,
                in_flight: false,
                epoch: old(self)@.epoch.wrapping_add(1),
            }),
    {
        self.last = None;
        self.in_flight = false;
        self.epoch = self.epoch.wrapping_add(1);
    }
}

} // verus!
