//! What is known of a session while it is in use.

use vstd::prelude::*;

verus! {

/// A session as its user sees it.
#[derive(Debug, PartialEq, Eq)]
pub struct SessionInfo {
    pub id: String,
    pub name: Option<String>,
}

/// What a [`SessionInfo`] holds.
#[verifier::ext_equal]
pub struct SessionInfoView {
    pub id: Seq<char>,
    pub name: Option<Seq<char>>,
}

impl DeepView for SessionInfo {
    type V = SessionInfoView;

    open spec fn deep_view(&self) -> SessionInfoView {
        SessionInfoView {
            id: self.id.deep_view(),
            name: self.name.deep_view(),
        }
    }
}

impl Clone for SessionInfo {
    fn clone(&self) -> (res: Self)
        ensures
            res.deep_view() == self.deep_view(),
    {
        let res = SessionInfo {
            id: self.id.clone(),
            name: self.name.clone(),
        };
        assert(res.deep_view() =~~= self.deep_view());
        res
    }
}

/// A session that is stored, by its identifier.
#[derive(Debug, PartialEq, Eq)]
pub struct SessionHandle {
    pub id: String,
}

/// What a [`SessionHandle`] holds.
#[verifier::ext_equal]
pub struct SessionHandleView {
    pub id: Seq<char>,
}

impl DeepView for SessionHandle {
    type V = SessionHandleView;

    open spec fn deep_view(&self) -> SessionHandleView {
        SessionHandleView {
            id: self.id.deep_view(),
        }
    }
}

impl Clone for SessionHandle {
    fn clone(&self) -> (res: Self)
        ensures
            res.deep_view() == self.deep_view(),
    {
        let res = SessionHandle {
            id: self.id.clone(),
        };
        assert(res.deep_view() =~~= self.deep_view());
        res
    }
}

/// Whether a conversation is stored, and in which session.
#[derive(Debug, PartialEq, Eq)]
pub enum SessionMode {
    Disabled,
    Enabled(SessionHandle),
}

/// What a [`SessionMode`] holds.
#[verifier::ext_equal]
pub enum SessionModeView {
    Disabled,
    Enabled(SessionHandleView),
}

impl DeepView for SessionMode {
    type V = SessionModeView;

    open spec fn deep_view(&self) -> SessionModeView {
        match self {
            SessionMode::Disabled => SessionModeView::Disabled,
            SessionMode::Enabled(value) => SessionModeView::Enabled(value.deep_view()),
        }
    }
}

impl Clone for SessionMode {
    fn clone(&self) -> (res: Self)
        ensures
            res.deep_view() == self.deep_view(),
    {
        let res = match self {
            SessionMode::Disabled => SessionMode::Disabled,
            SessionMode::Enabled(value) => SessionMode::Enabled(value.clone()),
        };
        assert(res.deep_view() =~~= self.deep_view());
        res
    }
}

} // verus!
