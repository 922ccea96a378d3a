//! The persisted data model: a profile record holding identity fields and a
//! bounded, newest-first activity log.
use vstd::prelude::*;

verus! {

/// One logged user action.
#[derive(Clone, Debug, PartialEq, Eq)]
pub struct Activity {
    pub id: String,
    pub action: String,
    pub target: String,
    pub timestamp: String,
}

/// Mathematical model of an [`Activity`].
#[verifier::ext_equal]
pub struct ActivityView {
    pub id: Seq<char>,
    pub action: Seq<char>,
    pub target: Seq<char>,
    pub timestamp: Seq<char>,
}

impl View for Activity {
    type V = ActivityView;

    open spec fn view(&self) -> ActivityView {
        ActivityView {
            id: self.id@,
            action: self.action@,
            target: self.target@,
            timestamp: self.timestamp@,
        }
    }
}

/// The persisted root entity: user identity, cumulative usage time, and the
/// activity log, newest first.
#[derive(Clone, Debug, PartialEq, Eq)]
pub struct Profile {
    pub username: Option<String>,
    pub email: Option<String>,
    pub join_date: Option<String>,
    pub total_time: i64,
    pub avatar: Option<String>,
    pub signature: Option<String>,
    pub activities: Vec<Activity>,
}

/// Mathematical model of a [`Profile`].
#[verifier::ext_equal]
pub struct ProfileView {
    pub username: Option<Seq<char>>,
    pub email: Option<Seq<char>>,
    pub join_date: Option<Seq<char>>,
    pub total_time: int,
    pub avatar: Option<Seq<char>>,
    pub signature: Option<Seq<char>>,
    pub activities: Seq<ActivityView>,
}

pub open spec fn view_opt_string(o: Option<String>) -> Option<Seq<char>> {
    match o {
        Option::Some(s) => Option::Some(s@),
        Option::None => Option::None,
    }
}

impl View for Profile {
    type V = ProfileView;

    open spec fn view(&self) -> ProfileView {
        ProfileView {
            username: view_opt_string(self.username),
            email: view_opt_string(self.email),
            join_date: view_opt_string(self.join_date),
            total_time: self.total_time as int,
            avatar: view_opt_string(self.avatar),
            signature: view_opt_string(self.signature),
            activities: self.activities@.map_values(|a: Activity| a@),
        }
    }
}

} // verus!

