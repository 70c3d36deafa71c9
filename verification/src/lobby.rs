//! The table of lobbies that wait for players and of sessions that are
//! being played.

use crate::moves::PlayerSlot;
use crate::rulebook::{rulebook_name, rulebook_named, rulebook_seats, Rulebook};
use vstd::prelude::*;

verus! {

/// Why the registry turned a request down.
#[derive(Clone, Copy, Debug, PartialEq, Eq, Structural)]
pub enum LobbyError {
    /// `create`: the name already denotes a lobby or an active session.
    DuplicateName,
    /// `join`: no lobby waits under the name.
    NotFound,
}

/// Why a request for a new lobby was turned down before it reached the registry.
#[derive(Clone, Copy, Debug, PartialEq, Eq, Structural)]
pub enum RequestError {
    /// The request names a rulebook that this relay does not serve.
    UnimplementedGameType,
}

/// A lobby as requests and listings describe it: its rulebook's name and its own.
#[derive(Debug)]
pub struct LobbyRequest {
    pub game_type: String,
    pub name: String,
}

/// What a name stands for in the registry.
pub enum EntryView<S> {
    /// A lobby that still waits for `remaining` players.
    Lobby { rulebook: Rulebook, remaining: nat, session: S },
    /// A session whose seats are all taken.
    Active { rulebook: Rulebook, session: S },
}

impl<S> EntryView<S> {
    /// The session that the entry holds.
    pub open spec fn session(self) -> S {
        match self {
            EntryView::Lobby { session, .. } => session,
            EntryView::Active { session, .. } => session,
        }
    }

    /// The rulebook of the entry.
    pub open spec fn rulebook(self) -> Rulebook {
        match self {
            EntryView::Lobby { rulebook, .. } => rulebook,
            EntryView::Active { rulebook, .. } => rulebook,
        }
    }

    /// A lobby waits for at least one player and for no more than its
    /// rulebook seats.
    pub open spec fn valid(self) -> bool {
        self matches EntryView::Lobby { rulebook, remaining, .. } ==> 1 <= remaining
            <= rulebook_seats(rulebook)
    }
}

/// Every entry of the table is valid.
pub open spec fn registry_valid<S>(table: Map<Seq<char>, EntryView<S>>) -> bool {
    forall|name: Seq<char>| table.contains_key(name) ==> (#[trigger] table[name]).valid()
}

/// The table after `create(name, rulebook, session)`: a new lobby that
/// waits for all the players of its rulebook, unless the name is taken.
pub open spec fn registry_create<S>(
    table: Map<Seq<char>, EntryView<S>>,
    name: Seq<char>,
    rulebook: Rulebook,
    session: S,
) -> Map<Seq<char>, EntryView<S>> {
    if table.contains_key(name) {
        table
    } else {
        table.insert(
            name,
            EntryView::Lobby { rulebook, remaining: rulebook_seats(rulebook), session },
        )
    }
}

/// What `create` returns.
pub open spec fn create_result<S>(table: Map<Seq<char>, EntryView<S>>, name: Seq<char>) -> Result<
    (),
    LobbyError,
> {
    if table.contains_key(name) {
        Err(LobbyError::DuplicateName)
    } else {
        Ok(())
    }
}

/// Whether a lobby waits under `name`.
pub open spec fn is_lobby<S>(table: Map<Seq<char>, EntryView<S>>, name: Seq<char>) -> bool {
    table.contains_key(name) && table[name] is Lobby
}

/// Whether an active session runs under `name`.
pub open spec fn is_active<S>(table: Map<Seq<char>, EntryView<S>>, name: Seq<char>) -> bool {
    table.contains_key(name) && table[name] is Active
}

/// The table after `join(name)`: the lobby under `name` waits for one
/// player less, and with its last player it becomes an active session
/// that holds the same session. Any other name changes nothing.
pub open spec fn registry_join<S>(table: Map<Seq<char>, EntryView<S>>, name: Seq<char>) -> Map<
    Seq<char>,
    EntryView<S>,
> {
    if is_lobby(table, name) {
        match table[name] {
            EntryView::Lobby { rulebook, remaining, session } => if remaining > 1 {
                table.insert(
                    name,
                    EntryView::Lobby { rulebook, remaining: (remaining - 1) as nat, session },
                )
            } else {
                table.insert(name, EntryView::Active { rulebook, session })
            },
            _ => table,
        }
    } else {
        table
    }
}

/// What `join` returns: the seat handed out, the highest one that was
/// still free; or `NotFound` when no lobby waits under the name.
pub open spec fn join_result<S>(table: Map<Seq<char>, EntryView<S>>, name: Seq<char>) -> Result<
    PlayerSlot,
    LobbyError,
> {
    if is_lobby(table, name) {
        match table[name] {
            EntryView::Lobby { remaining, .. } => Ok((remaining - 1) as PlayerSlot),
            _ => Err(LobbyError::NotFound),
        }
    } else {
        Err(LobbyError::NotFound)
    }
}

/// Whether `listing` names every open lobby of the table once, each with
/// the name of its rulebook, and nothing else.
pub open spec fn lists_lobbies<S>(
    table: Map<Seq<char>, EntryView<S>>,
    listing: Seq<LobbyRequest>,
) -> bool {
    &&& forall|i: int|
        0 <= i < listing.len() ==> is_lobby(table, (#[trigger] listing[i]).name@)
            && listing[i].game_type@ == rulebook_name(table[listing[i].name@].rulebook())
    &&& forall|name: Seq<char>| #[trigger]
        is_lobby(table, name) ==> exists|i: int|
            0 <= i < listing.len() && (#[trigger] listing[i]).name@ == name
    &&& forall|i: int, j: int|
        0 <= i < j < listing.len() ==> (#[trigger] listing[i]).name@ != (
        #[trigger] listing[j]).name@
}

/// Reads a request for a new lobby: the rulebook that `game_type` names,
/// together with the lobby's name, or `UnimplementedGameType` when no
/// rulebook has that name.
pub fn parse_lobby_request(request: LobbyRequest) -> (parsed: Result<
    (Rulebook, String),
    RequestError,
>)
    ensures
        match rulebook_named(request.game_type@) {
            Some(rulebook) => parsed matches Ok(pair) && pair.0 == rulebook && pair.1@
                == request.name@,
            None => parsed == Err::<(Rulebook, String), RequestError>(
                RequestError::UnimplementedGameType,
            ),
        },
{
    match Rulebook::from_name(request.game_type.as_str()) {
        Some(rulebook) => Ok((rulebook, request.name)),
        None => Err(RequestError::UnimplementedGameType),
    }
}

/// One row of the table.
struct Entry<S> {
    name: String,
    rulebook: Rulebook,
    /// The seats not yet handed out; none when the session is active.
    remaining: u8,
    session: S,
}

impl<S> Entry<S> {
    spec fn describe(self) -> EntryView<S> {
        if self.remaining > 0 {
            EntryView::Lobby {
                rulebook: self.rulebook,
                remaining: self.remaining as nat,
                session: self.session,
            }
        } else {
            EntryView::Active { rulebook: self.rulebook, session: self.session }
        }
    }
}

/// Whether some row carries `name`.
spec fn has_name<S>(rows: Seq<Entry<S>>, name: Seq<char>) -> bool {
    exists|i: int| 0 <= i < rows.len() && (#[trigger] rows[i]).name@ == name
}

/// A row that carries `name`.
spec fn row_of<S>(rows: Seq<Entry<S>>, name: Seq<char>) -> int {
    choose|i: int| 0 <= i < rows.len() && (#[trigger] rows[i]).name@ == name
}

/// No two rows carry the same name.
spec fn names_differ<S>(rows: Seq<Entry<S>>) -> bool {
    forall|i: int, j: int|
        0 <= i < j < rows.len() ==> (#[trigger] rows[i]).name@ != (#[trigger] rows[j]).name@
}

/// No row has more seats left than its rulebook has.
spec fn seats_fit<S>(rows: Seq<Entry<S>>) -> bool {
    forall|i: int|
        0 <= i < rows.len() ==> (#[trigger] rows[i]).remaining <= rulebook_seats(rows[i].rulebook)
}

/// The rows as a table from names to entries.
spec fn table_of<S>(rows: Seq<Entry<S>>) -> Map<Seq<char>, EntryView<S>> {
    Map::new(
        |name: Seq<char>| has_name(rows, name),
        |name: Seq<char>| rows[row_of(rows, name)].describe(),
    )
}

/// With no name twice, the row of a name is the one row that carries it.
proof fn lemma_row_of<S>(rows: Seq<Entry<S>>, i: int)
    requires
        names_differ(rows),
        0 <= i < rows.len(),
    ensures
        has_name(rows, rows[i].name@),
        row_of(rows, rows[i].name@) == i,
        table_of(rows)[rows[i].name@] == rows[i].describe(),
{
    let name = rows[i].name@;
    let j = row_of(rows, name);
    assert(0 <= j < rows.len() && rows[j].name@ == name);
}

/// The table of the rows with one more row under a new name.
proof fn lemma_table_push<S>(rows: Seq<Entry<S>>, row: Entry<S>)
    requires
        names_differ(rows),
        !has_name(rows, row.name@),
    ensures
        names_differ(rows.push(row)),
        table_of(rows.push(row)) == table_of(rows).insert(row.name@, row.describe()),
{
    let after = rows.push(row);
    assert(names_differ(after)) by {
        assert forall|i: int, j: int| 0 <= i < j < after.len() implies (#[trigger] after[i]).name@
            != (#[trigger] after[j]).name@ by {
            if j == rows.len() {
                assert(rows[i].name@ != row.name@);
            } else {
                assert(rows[i].name@ != rows[j].name@);
            }
        }
    }
    assert forall|name: Seq<char>| has_name(after, name) == (has_name(rows, name) || name
        == row.name@) by {
        if has_name(after, name) {
            let i = row_of(after, name);
            if i < rows.len() {
                assert(rows[i].name@ == name);
            }
        }
        if has_name(rows, name) {
            let i = row_of(rows, name);
            assert(after[i].name@ == name);
        }
        if name == row.name@ {
            assert(after[rows.len() as int].name@ == name);
        }
    }
    assert forall|name: Seq<char>| has_name(after, name) implies #[trigger] table_of(after)[name]
        == table_of(rows).insert(row.name@, row.describe())[name] by {
        let i = row_of(after, name);
        lemma_row_of(after, i);
        if i < rows.len() {
            lemma_row_of(rows, i);
        }
    }
    assert(table_of(after) =~= table_of(rows).insert(row.name@, row.describe()));
}

/// The table of the rows with row `i` replaced by one of the same name.
proof fn lemma_table_update<S>(rows: Seq<Entry<S>>, i: int, row: Entry<S>)
    requires
        names_differ(rows),
        0 <= i < rows.len(),
        row.name@ == rows[i].name@,
    ensures
        names_differ(rows.update(i, row)),
        table_of(rows.update(i, row)) == table_of(rows).insert(row.name@, row.describe()),
{
    let after = rows.update(i, row);
    assert(names_differ(after)) by {
        assert forall|a: int, b: int| 0 <= a < b < after.len() implies (#[trigger] after[a]).name@
            != (#[trigger] after[b]).name@ by {
            assert(rows[a].name@ != rows[b].name@);
        }
    }
    assert forall|name: Seq<char>| has_name(after, name) == has_name(rows, name) by {
        if has_name(after, name) {
            let j = row_of(after, name);
            assert(rows[j].name@ == name);
        }
        if has_name(rows, name) {
            let j = row_of(rows, name);
            assert(after[j].name@ == name);
        }
    }
    lemma_row_of(rows, i);
    assert forall|name: Seq<char>| has_name(after, name) implies #[trigger] table_of(after)[name]
        == table_of(rows).insert(row.name@, row.describe())[name] by {
        let j = row_of(after, name);
        lemma_row_of(after, j);
        lemma_row_of(rows, j);
    }
    assert(table_of(after) =~= table_of(rows).insert(row.name@, row.describe()));
}

/// A row with fewer seats left still fits its rulebook.
proof fn lemma_seats_fit_update<S>(rows: Seq<Entry<S>>, i: int, row: Entry<S>)
    requires
        seats_fit(rows),
        0 <= i < rows.len(),
        row.rulebook == rows[i].rulebook,
        row.remaining <= rows[i].remaining,
    ensures
        seats_fit(rows.update(i, row)),
{
    let after = rows.update(i, row);
    assert forall|j: int| 0 <= j < after.len() implies (#[trigger] after[j]).remaining
        <= rulebook_seats(after[j].rulebook) by {
        assert(rows[j].remaining <= rulebook_seats(rows[j].rulebook));
    }
}

/// Without one row, the others still fit their rulebooks.
proof fn lemma_seats_fit_remove<S>(rows: Seq<Entry<S>>, i: int)
    requires
        seats_fit(rows),
        0 <= i < rows.len(),
    ensures
        seats_fit(rows.remove(i)),
{
    let after = rows.remove(i);
    assert forall|j: int| 0 <= j < after.len() implies (#[trigger] after[j]).remaining
        <= rulebook_seats(after[j].rulebook) by {
        let j0 = if j < i { j } else { j + 1 };
        assert(after[j] == rows[j0]);
        assert(rows[j0].remaining <= rulebook_seats(rows[j0].rulebook));
    }
}

/// The table of the rows without row `i`.
proof fn lemma_table_remove<S>(rows: Seq<Entry<S>>, i: int)
    requires
        names_differ(rows),
        0 <= i < rows.len(),
    ensures
        names_differ(rows.remove(i)),
        table_of(rows.remove(i)) == table_of(rows).remove(rows[i].name@),
{
    let after = rows.remove(i);
    let gone = rows[i].name@;
    assert forall|a: int| 0 <= a < after.len() implies #[trigger] after[a] == rows[if a < i {
        a
    } else {
        a + 1
    }] by {}
    assert(names_differ(after)) by {
        assert forall|a: int, b: int| 0 <= a < b < after.len() implies (#[trigger] after[a]).name@
            != (#[trigger] after[b]).name@ by {
            let a0 = if a < i { a } else { a + 1 };
            let b0 = if b < i { b } else { b + 1 };
            assert(rows[a0].name@ != rows[b0].name@);
        }
    }
    assert forall|name: Seq<char>| has_name(after, name) == (has_name(rows, name) && name
        != gone) by {
        if has_name(after, name) {
            let a = row_of(after, name);
            let a0 = if a < i { a } else { a + 1 };
            assert(rows[a0].name@ == name);
            if a0 < i {
                assert(rows[a0].name@ != rows[i].name@);
            } else {
                assert(rows[i].name@ != rows[a0].name@);
            }
        }
        if has_name(rows, name) && name != gone {
            let j = row_of(rows, name);
            let a = if j < i { j } else { j - 1 };
            assert(after[a].name@ == name);
        }
    }
    assert forall|name: Seq<char>| has_name(after, name) implies #[trigger] table_of(after)[name]
        == table_of(rows).remove(gone)[name] by {
        let a = row_of(after, name);
        let a0 = if a < i { a } else { a + 1 };
        lemma_row_of(after, a);
        lemma_row_of(rows, a0);
    }
    assert(table_of(after) =~= table_of(rows).remove(gone));
}

/// The lobbies that wait for players and the sessions that are being
/// played, by name. A name stands for one entry at most, so never for a
/// lobby and a session at once. `S` is whatever the owner keeps for a
/// session: the session itself, or a handle that its connections share.
pub struct LobbyRegistry<S> {
    rows: Vec<Entry<S>>,
}

impl<S> View for LobbyRegistry<S> {
    type V = Map<Seq<char>, EntryView<S>>;

    closed spec fn view(&self) -> Map<Seq<char>, EntryView<S>> {
        table_of(self.rows@)
    }
}

impl<S> LobbyRegistry<S> {
    #[verifier::type_invariant]
    spec fn sound(&self) -> bool {
        names_differ(self.rows@) && seats_fit(self.rows@)
    }

    /// The rows satisfy what `registry_valid` asks of their table.
    proof fn lemma_valid(rows: Seq<Entry<S>>)
        requires
            names_differ(rows),
            seats_fit(rows),
        ensures
            registry_valid(table_of(rows)),
    {
        assert forall|name: Seq<char>| table_of(rows).contains_key(name) implies (
        #[trigger] table_of(rows)[name]).valid() by {
            let i = row_of(rows, name);
            assert(rows[i].remaining <= rulebook_seats(rows[i].rulebook));
        }
    }

    /// A registry without lobbies or sessions.
    pub fn new() -> (registry: LobbyRegistry<S>)
        ensures
            registry@ == Map::<Seq<char>, EntryView<S>>::empty(),
    {
        let registry = LobbyRegistry { rows: Vec::new() };
        assert(registry@ =~= Map::<Seq<char>, EntryView<S>>::empty());
        registry
    }

    /// The row that carries `name`, if any.
    fn find(&self, name: &String) -> (found: Option<usize>)
        ensures
            match found {
                Some(i) => i < self.rows@.len() && self.rows@[i as int].name@ == name@,
                None => !has_name(self.rows@, name@),
            },
    {
        let mut i: usize = 0;
        while i < self.rows.len()
            invariant
                i <= self.rows@.len(),
                forall|j: int| 0 <= j < i ==> (#[trigger] self.rows@[j]).name@ != name@,
            decreases self.rows@.len() - i,
        {
            if self.rows[i].name == *name {
                return Some(i);
            }
            i += 1;
        }
        None
    }

    /// Opens a lobby under `name` for a session under `rulebook`: it waits
    /// for as many players as the rulebook seats, and keeps `session` for
    /// them. Fails with `DuplicateName`, and changes nothing, when `name`
    /// already denotes a lobby or an active session.
    pub fn create(&mut self, name: String, rulebook: Rulebook, session: S) -> (result: Result<
        (),
        LobbyError,
    >)
        ensures
            result == create_result(old(self)@, name@),
            final(self)@ == registry_create(old(self)@, name@, rulebook, session),
            registry_valid(final(self)@),
    {
        proof {
            use_type_invariant(&*self);
            Self::lemma_valid(self.rows@);
        }
        match self.find(&name) {
            Some(_) => Err(LobbyError::DuplicateName),
            None => {
                let row = Entry { name, rulebook, remaining: rulebook.seats(), session };
                let mut rows: Vec<Entry<S>> = Vec::new();
                core::mem::swap(&mut self.rows, &mut rows);
                proof {
                    lemma_table_push(rows@, row);
                }
                rows.push(row);
                self.rows = rows;
                proof {
                    Self::lemma_valid(self.rows@);
                }
                Ok(())
            },
        }
    }

    /// Hands out one seat of the lobby under `name`: the highest that is
    /// still free. With its last seat the lobby becomes an active session,
    /// in this same call: the name denotes a lobby before it and a session
    /// after it, and nothing in between. Fails with `NotFound`, and
    /// changes nothing, when no lobby waits under `name`: the name is
    /// unknown, or all its seats are taken.
    pub fn join(&mut self, name: &str) -> (result: Result<PlayerSlot, LobbyError>)
        ensures
            result == join_result(old(self)@, name@),
            final(self)@ == registry_join(old(self)@, name@),
            registry_valid(final(self)@),
    {
        proof {
            use_type_invariant(&*self);
            Self::lemma_valid(self.rows@);
        }
        let key = name.to_owned();
        match self.find(&key) {
            None => Err(LobbyError::NotFound),
            Some(i) => {
                proof {
                    lemma_row_of(self.rows@, i as int);
                }
                let left = self.rows[i].remaining;
                if left == 0 {
                    Err(LobbyError::NotFound)
                } else {
                    let ghost before = self.rows@;
                    proof {
                        let row = Entry { remaining: (left - 1) as u8, ..before[i as int] };
                        lemma_table_update(before, i as int, row);
                        lemma_seats_fit_update(before, i as int, row);
                    }
                    let mut rows: Vec<Entry<S>> = Vec::new();
                    core::mem::swap(&mut self.rows, &mut rows);
                    rows[i].remaining = left - 1;
                    assert(rows@ =~= before.update(
                        i as int,
                        Entry { remaining: (left - 1) as u8, ..before[i as int] },
                    ));
                    self.rows = rows;
                    proof {
                        Self::lemma_valid(self.rows@);
                    }
                    Ok(left - 1)
                }
            },
        }
    }

    /// The open lobbies, each with its name and the name of its rulebook:
    /// every lobby once, no active session, in no particular order.
    pub fn list(&self) -> (listing: Vec<LobbyRequest>)
        ensures
            lists_lobbies(self@, listing@),
            registry_valid(self@),
    {
        proof {
            use_type_invariant(self);
            Self::lemma_valid(self.rows@);
        }
        let mut listing: Vec<LobbyRequest> = Vec::new();
        let ghost mut picked: Seq<int> = Seq::empty();
        let mut i: usize = 0;
        while i < self.rows.len()
            invariant
                i <= self.rows@.len(),
                picked.len() == listing@.len(),
                forall|k: int|
                    0 <= k < picked.len() ==> {
                        let row = self.rows@[#[trigger] picked[k]];
                        &&& 0 <= picked[k] < i
                        &&& row.remaining > 0
                        &&& listing@[k].name@ == row.name@
                        &&& listing@[k].game_type@ == rulebook_name(row.rulebook)
                    },
                forall|k: int, l: int|
                    0 <= k < l < picked.len() ==> (#[trigger] picked[k]) < (#[trigger] picked[l]),
                forall|j: int|
                    0 <= j < i && (#[trigger] self.rows@[j]).remaining > 0 ==> exists|k: int|
                        0 <= k < picked.len() && #[trigger] picked[k] == j,
            decreases self.rows@.len() - i,
        {
            if self.rows[i].remaining > 0 {
                let ghost before = picked;
                listing.push(
                    LobbyRequest {
                        game_type: self.rows[i].rulebook.name().to_owned(),
                        name: self.rows[i].name.clone(),
                    },
                );
                proof {
                    picked = picked.push(i as int);
                    assert forall|j: int|
                        0 <= j < i + 1 && (#[trigger] self.rows@[j]).remaining > 0 implies exists|
                        k: int,
                    |
                        0 <= k < picked.len() && #[trigger] picked[k] == j by {
                        if j < i {
                            let k = choose|k: int|
                                0 <= k < before.len() && #[trigger] before[k] == j;
                            assert(picked[k] == j);
                        } else {
                            assert(picked[before.len() as int] == j);
                        }
                    }
                }
            }
            i += 1;
        }
        proof {
            let rows = self.rows@;
            assert forall|k: int| 0 <= k < listing@.len() implies is_lobby(
                self@,
                (#[trigger] listing@[k]).name@,
            ) && listing@[k].game_type@ == rulebook_name(self@[listing@[k].name@].rulebook()) by {
                lemma_row_of(rows, picked[k]);
            }
            assert forall|name: Seq<char>| #[trigger] is_lobby(self@, name) implies exists|k: int|
                0 <= k < listing@.len() && (#[trigger] listing@[k]).name@ == name by {
                let j = row_of(rows, name);
                assert(rows[j].remaining > 0);
                let k = choose|k: int| 0 <= k < picked.len() && #[trigger] picked[k] == j;
                assert(listing@[k].name@ == name);
            }
            assert forall|k: int, l: int| 0 <= k < l < listing@.len() implies (
            #[trigger] listing@[k]).name@ != (#[trigger] listing@[l]).name@ by {
                assert(picked[k] < picked[l]);
                assert(rows[picked[k]].name@ != rows[picked[l]].name@);
            }
        }
        listing
    }

    /// What the registry keeps for the lobby or the session under `name`;
    /// `None` when the name denotes neither.
    pub fn session(&self, name: &str) -> (found: Option<&S>)
        ensures
            match found {
                Some(session) => self@.contains_key(name@) && *session == self@[name@].session(),
                None => !self@.contains_key(name@),
            },
            registry_valid(self@),
    {
        proof {
            use_type_invariant(self);
            Self::lemma_valid(self.rows@);
        }
        let key = name.to_owned();
        match self.find(&key) {
            None => None,
            Some(i) => {
                proof {
                    lemma_row_of(self.rows@, i as int);
                }
                Some(&self.rows[i].session)
            },
        }
    }

    /// What the registry keeps for the active session under `name`;
    /// `None` when no session runs under it, also while it is still a lobby.
    pub fn active(&self, name: &str) -> (found: Option<&S>)
        ensures
            match found {
                Some(session) => is_active(self@, name@) && *session == self@[name@].session(),
                None => !is_active(self@, name@),
            },
            registry_valid(self@),
    {
        proof {
            use_type_invariant(self);
            Self::lemma_valid(self.rows@);
        }
        let key = name.to_owned();
        match self.find(&key) {
            None => None,
            Some(i) => {
                proof {
                    lemma_row_of(self.rows@, i as int);
                }
                if self.rows[i].remaining == 0 {
                    Some(&self.rows[i].session)
                } else {
                    None
                }
            },
        }
    }

    /// The rulebook of the lobby or the session under `name`; `None` when
    /// the name denotes neither.
    pub fn rulebook_of(&self, name: &str) -> (found: Option<Rulebook>)
        ensures
            match found {
                Some(rulebook) => self@.contains_key(name@) && rulebook == self@[name@].rulebook(),
                None => !self@.contains_key(name@),
            },
    {
        proof {
            use_type_invariant(self);
        }
        let key = name.to_owned();
        match self.find(&key) {
            None => None,
            Some(i) => {
                proof {
                    lemma_row_of(self.rows@, i as int);
                }
                Some(self.rows[i].rulebook)
            },
        }
    }

    /// Removes whatever `name` denotes, a lobby that still waits or an
    /// active session, and returns what the registry kept for it. After
    /// the call the name denotes nothing; every other name is as before.
    pub fn remove(&mut self, name: &str) -> (removed: Option<S>)
        ensures
            final(self)@ == old(self)@.remove(name@),
            match removed {
                Some(session) => old(self)@.contains_key(name@) && session == old(
                    self,
                )@[name@].session(),
                None => !old(self)@.contains_key(name@),
            },
            registry_valid(final(self)@),
    {
        proof {
            use_type_invariant(&*self);
            Self::lemma_valid(self.rows@);
        }
        let key = name.to_owned();
        match self.find(&key) {
            None => {
                assert(self@.remove(name@) =~= self@);
                None
            },
            Some(i) => {
                let ghost before = self.rows@;
                proof {
                    lemma_row_of(before, i as int);
                    lemma_table_remove(before, i as int);
                    lemma_seats_fit_remove(before, i as int);
                }
                let mut rows: Vec<Entry<S>> = Vec::new();
                core::mem::swap(&mut self.rows, &mut rows);
                let row = rows.remove(i);
                self.rows = rows;
                proof {
                    Self::lemma_valid(self.rows@);
                }
                Some(row.session)
            },
        }
    }
}

/// A name never denotes a lobby and an active session at once.
pub proof fn law_name_denotes_one_entry<S>(table: Map<Seq<char>, EntryView<S>>, name: Seq<char>)
    ensures
        !(is_lobby(table, name) && is_active(table, name)),
{
}

/// A join on a lobby that waits for more than one player starts no
/// session: the lobby stays a lobby and waits for one player less.
pub proof fn law_join_keeps_lobby_waiting<S>(table: Map<Seq<char>, EntryView<S>>, name: Seq<char>)
    requires
        is_lobby(table, name),
        table[name]->Lobby_remaining > 1,
    ensures
        join_result(table, name) is Ok,
        is_lobby(registry_join(table, name), name),
        !is_active(registry_join(table, name), name),
        registry_join(table, name)[name]->Lobby_remaining == table[name]->Lobby_remaining - 1,
        registry_join(table, name)[name].session() == table[name].session(),
{
}

/// The join that takes the last seat of a lobby turns it into an active
/// session, which holds what the lobby held. After that join, and before
/// the next call, the name denotes the session: there is no state in
/// which it denotes nothing.
pub proof fn law_last_join_starts_session<S>(table: Map<Seq<char>, EntryView<S>>, name: Seq<char>)
    requires
        is_lobby(table, name),
        table[name]->Lobby_remaining == 1,
    ensures
        join_result(table, name) == Ok::<PlayerSlot, LobbyError>(0),
        is_active(registry_join(table, name), name),
        registry_join(table, name)[name].session() == table[name].session(),
        registry_join(table, name)[name].rulebook() == table[name].rulebook(),
{
}

/// Two joins on the same lobby, in either order of arrival, are handed
/// different seats: while a lobby waits for at least two players, the
/// join that comes first and the join that comes second both succeed,
/// and never with the same seat.
pub proof fn law_joins_get_distinct_seats<S>(table: Map<Seq<char>, EntryView<S>>, name: Seq<char>)
    requires
        registry_valid(table),
        is_lobby(table, name),
        table[name]->Lobby_remaining >= 2,
    ensures
        join_result(table, name) is Ok,
        join_result(registry_join(table, name), name) is Ok,
        join_result(table, name) != join_result(registry_join(table, name), name),
{
    assert(table[name].valid());
}

/// Once all seats of a session are taken, a join under its name fails
/// with `NotFound` and changes nothing; so does a join under a name that
/// denotes nothing.
pub proof fn law_join_needs_open_lobby<S>(table: Map<Seq<char>, EntryView<S>>, name: Seq<char>)
    requires
        !is_lobby(table, name),
    ensures
        join_result(table, name) == Err::<PlayerSlot, LobbyError>(LobbyError::NotFound),
        registry_join(table, name) == table,
{
}

/// A lobby hands out exactly as many seats as its rulebook has: after
/// that many joins on a new lobby the name denotes an active session,
/// and one join more fails.
pub proof fn law_seats_issued_once<S>(
    table: Map<Seq<char>, EntryView<S>>,
    name: Seq<char>,
    rulebook: Rulebook,
    session: S,
)
    requires
        !table.contains_key(name),
    ensures
        ({
            let created = registry_create(table, name, rulebook, session);
            let first = registry_join(created, name);
            let second = registry_join(first, name);
            &&& create_result(table, name) is Ok
            &&& join_result(created, name) == Ok::<PlayerSlot, LobbyError>(1)
            &&& is_lobby(first, name)
            &&& join_result(first, name) == Ok::<PlayerSlot, LobbyError>(0)
            &&& is_active(second, name)
            &&& second[name].session() == session
            &&& join_result(second, name) == Err::<PlayerSlot, LobbyError>(LobbyError::NotFound)
        }),
{
}

} // verus!
