//! The records of the collection and the inputs of the operations on it.

use vstd::prelude::*;

verus! {

/// What a [`Todo`] is, as a mathematical value.
pub struct TodoView {
    pub id: u128,
    pub text: Seq<char>,
    pub completed: bool,
}

/// The bits of an identifier that every randomly generated UUID fixes:
/// the version nibble and the two variant bits.
pub const RANDOM_UUID_FIXED_BITS: u128 = 0x0000_0000_0000_f000_c000_0000_0000_0000u128;

/// The value of those bits in a randomly generated UUID:
/// version 4, variant `10`.
pub const RANDOM_UUID_MARK: u128 = 0x0000_0000_0000_4000_8000_0000_0000_0000u128;

/// Whether `id` has the version and variant bits of a randomly generated
/// (version 4) UUID.
pub open spec fn is_random_uuid(id: u128) -> bool {
    id & RANDOM_UUID_FIXED_BITS == RANDOM_UUID_MARK
}

/// A randomly generated identifier is never the nil identifier, whose
/// bits are all zero.
pub proof fn lemma_random_uuid_is_not_nil(id: u128)
    requires
        is_random_uuid(id),
    ensures
        id != 0,
{
    assert(0u128 & 0x0000_0000_0000_f000_c000_0000_0000_0000u128
        != 0x0000_0000_0000_4000_8000_0000_0000_0000u128) by (bit_vector);
}

/// Draws a new identifier.
///
/// Trusted: calls `uuid::Uuid::new_v4` and reads the result as a
/// big-endian 128-bit number with `Uuid::as_u128`. The contract claims
/// only what `new_v4` forces on every outcome: it masks the random bits
/// with `0xFFFFFFFFFFFF4FFFBFFFFFFFFFFFFFFF` and sets
/// `0x40008000000000000000`, which fixes the version nibble to 4 and the
/// variant bits to `10`. Nothing is claimed about the remaining 122 bits:
/// in particular not that two draws differ. `new_v4` panics if the
/// operating system cannot supply random bytes.
#[verifier::external_body]
fn fresh_id() -> (id: u128)
    ensures
        is_random_uuid(id),
{
    uuid::Uuid::new_v4().as_u128()
}

/// A single todo item: an identifier that never changes, a text and a
/// flag that says whether the item is done.
#[derive(Debug)]
pub struct Todo {
    id: u128,
    text: String,
    completed: bool,
}

impl View for Todo {
    type V = TodoView;

    closed spec fn view(&self) -> TodoView {
        TodoView { id: self.id, text: self.text@, completed: self.completed }
    }
}

impl Clone for Todo {
    fn clone(&self) -> (copy: Self)
        ensures
            copy == *self,
    {
        Todo { id: self.id, text: self.text.clone(), completed: self.completed }
    }
}

impl Todo {
    /// Builds the record with the given identifier.
    pub fn from_parts(id: u128, text: String, completed: bool) -> (todo: Todo)
        ensures
            todo@ == (TodoView { id, text: text@, completed }),
    {
        Todo { id, text, completed }
    }

    /// Builds a record under a newly drawn identifier.
    pub fn new(text: String, completed: bool) -> (todo: Todo)
        ensures
            is_random_uuid(todo@.id),
            todo@.text == text@,
            todo@.completed == completed,
    {
        Todo::from_parts(fresh_id(), text, completed)
    }

    /// The text of the record.
    pub fn text(&self) -> (text: &str)
        ensures
            text@ == self@.text,
    {
        self.text.as_str()
    }

    /// Replaces the text and nothing else.
    pub fn set_text(&mut self, text: String)
        ensures
            final(self)@ == (TodoView { text: text@, ..old(self)@ }),
    {
        self.text = text;
    }

    /// Replaces the completed flag and nothing else.
    pub fn set_completed(&mut self, completed: bool)
        ensures
            final(self)@ == (TodoView { completed, ..old(self)@ }),
    {
        self.completed = completed;
    }

    /// The identifier of the record: the 128 bits of its UUID, read as
    /// one big-endian number.
    pub fn id(&self) -> (id: u128)
        ensures
            id == self@.id,
    {
        self.id
    }

    /// Whether the record is completed.
    pub fn completed(&self) -> (completed: bool)
        ensures
            completed == self@.completed,
    {
        self.completed
    }
}

/// What a [`CreateTodo`] is, as a mathematical value.
pub struct CreateTodoView {
    pub text: Seq<char>,
}

/// The input of a create request: the text of the record to be made.
#[derive(Debug)]
pub struct CreateTodo {
    text: String,
}

impl View for CreateTodo {
    type V = CreateTodoView;

    closed spec fn view(&self) -> CreateTodoView {
        CreateTodoView { text: self.text@ }
    }
}

impl CreateTodo {
    /// The input that asks for a record with the given text.
    pub fn new(text: String) -> (input: CreateTodo)
        ensures
            input@.text == text@,
    {
        CreateTodo { text }
    }

    /// Replaces the text asked for.
    pub fn set_text(&mut self, text: String)
        ensures
            final(self)@.text == text@,
    {
        self.text = text;
    }

    /// The text asked for.
    pub fn text(&self) -> (text: &str)
        ensures
            text@ == self@.text,
    {
        self.text.as_str()
    }
}

/// What an [`UpdateTodo`] is, as a mathematical value: for each field of
/// a record, the new value, or `None` where the field is to stay as it is.
pub struct UpdateTodoView {
    pub text: Option<Seq<char>>,
    pub completed: Option<bool>,
}

impl UpdateTodoView {
    /// The record that `todo` becomes under this update: the fields that
    /// the update names are replaced, the others and the identifier stay.
    pub open spec fn apply(self, todo: TodoView) -> TodoView {
        TodoView {
            id: todo.id,
            text: match self.text {
                Some(text) => text,
                None => todo.text,
            },
            completed: match self.completed {
                Some(completed) => completed,
                None => todo.completed,
            },
        }
    }
}

/// No update changes the identifier of a record.
pub proof fn lemma_update_keeps_id(update: UpdateTodoView, todo: TodoView)
    ensures
        update.apply(todo).id == todo.id,
{
}

/// An update that names only the completed flag sets that flag and
/// leaves the text as it was.
pub proof fn lemma_update_completed_only(update: UpdateTodoView, todo: TodoView)
    requires
        update.text is None,
        update.completed is Some,
    ensures
        update.apply(todo) == (TodoView { completed: update.completed->0, ..todo }),
{
}

/// An update that names only the text sets the text and leaves the
/// completed flag as it was.
pub proof fn lemma_update_text_only(update: UpdateTodoView, todo: TodoView)
    requires
        update.text is Some,
        update.completed is None,
    ensures
        update.apply(todo) == (TodoView { text: update.text->0, ..todo }),
{
}

/// An update that names no field leaves the record as it is.
pub proof fn lemma_update_nothing(update: UpdateTodoView, todo: TodoView)
    requires
        update.text is None,
        update.completed is None,
    ensures
        update.apply(todo) == todo,
{
}

/// The input of an update request. A field that is absent leaves the
/// record's field unchanged.
#[derive(Debug)]
pub struct UpdateTodo {
    text: Option<String>,
    completed: Option<bool>,
}

impl View for UpdateTodo {
    type V = UpdateTodoView;

    closed spec fn view(&self) -> UpdateTodoView {
        UpdateTodoView {
            text: match self.text {
                Some(text) => Some(text@),
                None => None,
            },
            completed: self.completed,
        }
    }
}

impl UpdateTodo {
    /// The input that asks for the given fields to be replaced.
    pub fn new(text: Option<String>, completed: Option<bool>) -> (input: UpdateTodo)
        ensures
            input@.text == match text {
                Some(text) => Some(text@),
                None => None,
            },
            input@.completed == completed,
    {
        UpdateTodo { text, completed }
    }

    /// The new completed flag, if one is asked for.
    pub fn completed(&self) -> (completed: Option<bool>)
        ensures
            completed == self@.completed,
    {
        self.completed
    }

    /// The new text, if one is asked for.
    pub fn text(&self) -> (text: Option<&String>)
        ensures
            match text {
                Some(text) => self@.text == Some(text@),
                None => self@.text is None,
            },
    {
        self.text.as_ref()
    }
}

/// The offset and limit of a list request. An absent offset skips
/// nothing; an absent limit lists everything after the offset.
#[derive(Debug)]
pub struct Pagination {
    pub offset: Option<usize>,
    pub limit: Option<usize>,
}

impl Default for Pagination {
    fn default() -> (pagination: Pagination)
        ensures
            pagination.offset is None,
            pagination.limit is None,
    {
        Pagination { offset: None, limit: None }
    }
}

impl Pagination {
    /// The entries of `all` that a list request with this pagination
    /// shows: `all` without its first `offset` entries, cut to its first
    /// `limit` entries where more are left.
    pub open spec fn page<T>(self, all: Seq<T>) -> Seq<T> {
        let rest = match self.offset {
            Some(offset) => if offset < all.len() {
                all.skip(offset as int)
            } else {
                Seq::empty()
            },
            None => all,
        };
        match self.limit {
            Some(limit) => if limit < rest.len() {
                rest.take(limit as int)
            } else {
                rest
            },
            None => rest,
        }
    }

    /// The position of the first shown entry among `len` entries: the
    /// offset, or `len` where the offset reaches past the end.
    pub open spec fn start(self, len: nat) -> nat {
        match self.offset {
            Some(offset) => if offset < len {
                offset as nat
            } else {
                len
            },
            None => 0,
        }
    }

    /// The position just past the last shown entry among `len` entries.
    pub open spec fn end(self, len: nat) -> nat {
        match self.limit {
            Some(limit) => if limit < len - self.start(len) {
                self.start(len) + limit as nat
            } else {
                len
            },
            None => len,
        }
    }

    /// A page is the stretch of `all` from `start` to `end`: it holds the
    /// entries of `all` from the offset on, in their order, as many as the
    /// limit allows and `all` has left.
    pub proof fn lemma_page<T>(self, all: Seq<T>)
        ensures
            self.start(all.len()) <= self.end(all.len()) <= all.len(),
            self.page(all) == all.subrange(
                self.start(all.len()) as int,
                self.end(all.len()) as int,
            ),
            self.page(all).len() == self.end(all.len()) - self.start(all.len()),
            self.page(all).len() <= all.len(),
            self.limit matches Some(limit) ==> self.page(all).len() <= limit,
            forall|i: int|
                0 <= i < self.page(all).len() ==> #[trigger] self.page(all)[i] == all[self.start(
                    all.len(),
                ) + i],
    {
        assert(self.page(all) =~= all.subrange(
            self.start(all.len()) as int,
            self.end(all.len()) as int,
        ));
    }

    /// Without an offset and a limit the page is all there is.
    pub proof fn lemma_page_unbounded<T>(self, all: Seq<T>)
        requires
            self.offset is None,
            self.limit is None,
        ensures
            self.page(all) == all,
    {
    }

    /// Computes the positions between which `len` entries are shown.
    pub fn window(&self, len: usize) -> (bounds: (usize, usize))
        ensures
            bounds.0 == self.start(len as nat),
            bounds.1 == self.end(len as nat),
            bounds.0 <= bounds.1 <= len,
    {
        let start: usize = match self.offset {
            Some(offset) => if offset < len {
                offset
            } else {
                len
            },
            None => 0,
        };
        let end: usize = match self.limit {
            Some(limit) => if limit < len - start {
                start + limit
            } else {
                len
            },
            None => len,
        };
        (start, end)
    }
}

} // verus!
