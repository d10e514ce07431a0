//! What handlers ask of the backing store, and what comes back.

use vstd::prelude::*;

verus! {

/// A user as the store holds it.
#[derive(Clone, Debug)]
pub struct User {
    pub name: String,
    pub age: i32,
}

pub struct UserView {
    pub name: Seq<char>,
    pub age: int,
}

impl View for User {
    type V = UserView;

    open spec fn view(&self) -> UserView {
        UserView { name: self.name@, age: self.age as int }
    }
}

pub open spec fn users_view(users: Seq<User>) -> Seq<UserView> {
    users.map_values(|u: User| u@)
}

/// One operation on the backing store.
#[derive(Debug)]
pub enum Query {
    /// All users.
    ListUsers,
    /// The users with this id.
    FindUser { id: i32 },
    /// Add this user.
    InsertUser { user: User },
}

pub enum QueryView {
    ListUsers,
    FindUser { id: int },
    InsertUser { user: UserView },
}

impl View for Query {
    type V = QueryView;

    open spec fn view(&self) -> QueryView {
        match self {
            Query::ListUsers => QueryView::ListUsers,
            Query::FindUser { id } => QueryView::FindUser { id: *id as int },
            Query::InsertUser { user } => QueryView::InsertUser { user: user@ },
        }
    }
}

/// Which operation a query is, whatever it is about.
#[derive(Clone, Copy, Debug, PartialEq, Eq, Structural)]
pub enum QueryKind {
    ListUsers,
    FindUser,
    InsertUser,
}

impl QueryView {
    pub open spec fn kind(self) -> QueryKind {
        match self {
            QueryView::ListUsers => QueryKind::ListUsers,
            QueryView::FindUser { id } => QueryKind::FindUser,
            QueryView::InsertUser { user } => QueryKind::InsertUser,
        }
    }
}

impl Query {
    /// Which operation this is.
    pub fn kind(&self) -> (k: QueryKind)
        ensures
            k == self@.kind(),
    {
        match self {
            Query::ListUsers => QueryKind::ListUsers,
            Query::FindUser { id } => QueryKind::FindUser,
            Query::InsertUser { user } => QueryKind::InsertUser,
        }
    }
}

/// How an operation on the backing store ended.
#[derive(Debug)]
pub enum Reply {
    /// The operation was carried out; these are the rows it gave.
    Rows(Vec<User>),
    /// No connection became free within the pool's timeout.
    PoolExhausted,
    /// The pool could not open a connection.
    CreationFailed,
    /// The store refused the operation, with this message.
    Failed(String),
}

pub enum ReplyView {
    Rows(Seq<UserView>),
    PoolExhausted,
    CreationFailed,
    Failed(Seq<char>),
}

impl View for Reply {
    type V = ReplyView;

    open spec fn view(&self) -> ReplyView {
        match self {
            Reply::Rows(rows) => ReplyView::Rows(users_view(rows@)),
            Reply::PoolExhausted => ReplyView::PoolExhausted,
            Reply::CreationFailed => ReplyView::CreationFailed,
            Reply::Failed(message) => ReplyView::Failed(message@),
        }
    }
}

} // verus!
