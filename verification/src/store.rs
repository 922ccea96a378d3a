//! The store's decision logic: what a fetch, a replace and an activity
//! append do to the single JSON document, independent of the file system.
//!
//! The host reads the file and hands its text in; the library answers with
//! the resulting profile and with what, if anything, must be written back.
//! Concurrent callers are not serialized: two interleaved
//! read-modify-write cycles follow a last-write-wins race, which is an
//! accepted limitation of this single-user local store.
use vstd::prelude::*;
use vstd::string::StringExecFns;

use crate::MAX_ACTIVITIES;
use crate::codec::{parse_profile, ser_i64, ser_profile};
use crate::codec::{i64_to_string, json_to_profile, profile_to_json};
use crate::ext::{now_rfc3339, now_unix_millis};
use crate::profile::{Activity, ActivityView, Profile, ProfileView};

verus! {

/// The default profile materialized on a fresh installation, with
/// `join_date` set to the given timestamp.
pub open spec fn default_profile_view(now: Seq<char>) -> ProfileView {
    ProfileView {
        username: Option::Some("Administrator"@),
        email: Option::Some("admin@tideoa.com"@),
        join_date: Option::Some(now),
        total_time: 0,
        avatar: Option::None,
        signature: Option::Some("Per aspera ad astra."@),
        activities: Seq::<ActivityView>::empty(),
    }
}

/// Build the default profile with the given join date.
pub fn default_profile(join_date: String) -> (r: Profile)
    ensures
        r@ == default_profile_view(join_date@),
{
    let r = Profile {
        username: Option::Some(String::from_str("Administrator")),
        email: Option::Some(String::from_str("admin@tideoa.com")),
        join_date: Option::Some(join_date),
        total_time: 0,
        avatar: Option::None,
        signature: Option::Some(String::from_str("Per aspera ad astra.")),
        activities: Vec::new(),
    };
    proof {
        assert(r@.activities =~= Seq::<ActivityView>::empty());
        assert(r@ =~~= default_profile_view(r.join_date->Some_0@));
    }
    r
}

/// What a fetch decides: the profile to hand back, and what must be
/// written to the file.
pub enum FetchPlan {
    /// No file existed: the default profile must be persisted; a failure of
    /// that write is an error of the fetch itself.
    FirstRun { profile: Profile, file: String },
    /// The stored profile lacked a join date: the repaired profile should
    /// be persisted best-effort; a failure of that write is swallowed.
    Repaired { profile: Profile, file: String },
    /// Nothing needs to be written.
    Clean { profile: Profile },
}

/// Mathematical model of a [`FetchPlan`].
#[verifier::ext_equal]
pub enum FetchPlanView {
    FirstRun { profile: ProfileView, file: Seq<char> },
    Repaired { profile: ProfileView, file: Seq<char> },
    Clean { profile: ProfileView },
}

impl View for FetchPlan {
    type V = FetchPlanView;

    open spec fn view(&self) -> FetchPlanView {
        match self {
            FetchPlan::FirstRun { profile, file } => (FetchPlanView::FirstRun {
                profile: profile@,
                file: file@,
            }),
            FetchPlan::Repaired { profile, file } => (FetchPlanView::Repaired {
                profile: profile@,
                file: file@,
            }),
            FetchPlan::Clean { profile } => (FetchPlanView::Clean { profile: profile@ }),
        }
    }
}

impl FetchPlan {
    /// The profile the fetch hands back.
    pub fn profile(self) -> (r: Profile)
        ensures
            r@ == self@.profile(),
    {
        match self {
            FetchPlan::FirstRun { profile, file } => profile,
            FetchPlan::Repaired { profile, file } => profile,
            FetchPlan::Clean { profile } => profile,
        }
    }
}

impl FetchPlanView {
    pub open spec fn profile(self) -> ProfileView {
        match self {
            FetchPlanView::FirstRun { profile, file } => profile,
            FetchPlanView::Repaired { profile, file } => profile,
            FetchPlanView::Clean { profile } => profile,
        }
    }
}

/// What a fetch does, given the file's contents (`None` when no file
/// exists) and the current timestamp: a missing file materializes the
/// default profile and persists it; unparseable contents fall back to the
/// default without rewriting the file; a parsed profile with no join date
/// is repaired and persisted; otherwise the stored profile is handed back
/// as it is.
pub open spec fn spec_fetch(contents: Option<Seq<char>>, now: Seq<char>) -> FetchPlanView {
    match contents {
        Option::None => {
            let d = default_profile_view(now);
            FetchPlanView::FirstRun { profile: d, file: ser_profile(d) }
        },
        Option::Some(text) => match parse_profile(text) {
            Option::None => FetchPlanView::Clean { profile: default_profile_view(now) },
            Option::Some(pv) => {
                if pv.join_date is Some {
                    FetchPlanView::Clean { profile: pv }
                } else {
                    let q = ProfileView { join_date: Option::Some(now), ..pv };
                    FetchPlanView::Repaired { profile: q, file: ser_profile(q) }
                }
            },
        },
    }
}

pub open spec fn view_opt_str(o: Option<&str>) -> Option<Seq<char>> {
    match o {
        Option::Some(s) => Option::Some(s@),
        Option::None => Option::None,
    }
}

/// The fetch decision against an explicit timestamp.
fn fetch_plan_with(contents: Option<&str>, now: String) -> (r: FetchPlan)
    ensures
        r@ == spec_fetch(view_opt_str(contents), now@),
{
    match contents {
        Option::None => {
            let d = default_profile(now);
            let file = profile_to_json(&d);
            FetchPlan::FirstRun { profile: d, file }
        },
        Option::Some(text) => match json_to_profile(text) {
            Option::None => FetchPlan::Clean { profile: default_profile(now) },
            Option::Some(p) => {
                if p.join_date.is_some() {
                    FetchPlan::Clean { profile: p }
                } else {
                    let Profile {
                        username,
                        email,
                        join_date,
                        total_time,
                        avatar,
                        signature,
                        activities,
                    } = p;
                    let q = Profile {
                        username,
                        email,
                        join_date: Option::Some(now),
                        total_time,
                        avatar,
                        signature,
                        activities,
                    };
                    proof {
                        assert(q@ =~~= (ProfileView { join_date: Option::Some(now@), ..p@ }));
                    }
                    let file = profile_to_json(&q);
                    FetchPlan::Repaired { profile: q, file }
                }
            },
        },
    }
}

/// The fetch decision for the given file contents, stamped with the
/// current time. Whatever timestamp the clock returned, the result is the
/// fetch decision for that timestamp, and the profile handed back always
/// carries a join date.
pub fn fetch_plan(contents: Option<&str>) -> (r: FetchPlan)
    ensures
        exists|now: Seq<char>|
            #[trigger] spec_fetch(view_opt_str(contents), now) == r@ && now.len() > 0,
        r@.profile().join_date is Some,
        ({
            let c = view_opt_str(contents);
            c is Some && parse_profile(c->Some_0) is Some && parse_profile(
                c->Some_0,
            )->Some_0.join_date is Some ==> r@ == (FetchPlanView::Clean {
                profile: parse_profile(c->Some_0)->Some_0,
            })
        }),
        ({
            let c = view_opt_str(contents);
            c is Some && parse_profile(c->Some_0) is None ==> (r@ matches FetchPlanView::Clean {
                profile,
            } && profile.username == Option::Some("Administrator"@) && profile.total_time == 0
                && profile.activities.len() == 0)
        }),
        view_opt_str(contents) is None ==> (r@ matches FetchPlanView::FirstRun { profile, file }
            && file == ser_profile(profile)),
{
    let now = now_rfc3339();
    let ghost nv = now@;
    let r = fetch_plan_with(contents, now);
    proof {
        assert(spec_fetch(view_opt_str(contents), nv) == r@);
        lemma_fetch_join_date(view_opt_str(contents), nv);
    }
    r
}

/// The profile a fetch hands back always carries a join date: the default
/// one carries the current timestamp, a repaired one was just given one,
/// and a stored one without a join date is never handed back unrepaired.
pub proof fn lemma_fetch_join_date(contents: Option<Seq<char>>, now: Seq<char>)
    ensures
        spec_fetch(contents, now).profile().join_date is Some,
{
}

/// Serialize a profile for persisting: the compute half of a replace,
/// whose write half the host performs.
pub fn replace_file_text(p: &Profile) -> (r: String)
    ensures
        r@ == ser_profile(p@),
{
    profile_to_json(p)
}

/// Prepending `a` to the activity log and keeping the newest
/// `MAX_ACTIVITIES` entries; every other field passes through unchanged.
pub open spec fn spec_append_activity(p: ProfileView, a: ActivityView) -> ProfileView {
    let all = seq![a] + p.activities;
    let kept = if all.len() <= MAX_ACTIVITIES as int {
        all
    } else {
        all.take(MAX_ACTIVITIES as int)
    };
    ProfileView { activities: kept, ..p }
}

/// Prepend `a` to the profile's activity log, dropping the oldest entries
/// beyond the retention bound.
pub fn append_activity(p: Profile, a: Activity) -> (r: Profile)
    ensures
        r@ == spec_append_activity(p@, a@),
        r@.activities.len() == if p@.activities.len() + 1 <= MAX_ACTIVITIES as int {
            p@.activities.len() + 1 as int
        } else {
            MAX_ACTIVITIES as int
        },
        r@.activities[0] == a@,
        forall|k: int|
            1 <= k < r@.activities.len() ==> r@.activities[k] == p@.activities[k - 1],
        r@.username == p@.username,
        r@.email == p@.email,
        r@.join_date == p@.join_date,
        r@.total_time == p@.total_time,
        r@.avatar == p@.avatar,
        r@.signature == p@.signature,
{
    let Profile { username, email, join_date, total_time, avatar, signature, activities } = p;
    let ghost old_acts = activities@.map_values(|x: Activity| x@);
    let mut acts = activities;
    acts.insert(0, a);
    proof {
        assert(acts@.map_values(|x: Activity| x@) =~= seq![a@] + old_acts);
    }
    while acts.len() > MAX_ACTIVITIES
        invariant
            acts@.map_values(|x: Activity| x@) == (seq![a@] + old_acts).take(acts@.len() as int),
            acts@.len() >= MAX_ACTIVITIES ==> acts@.len() <= (seq![a@] + old_acts).len(),
            acts@.len() < MAX_ACTIVITIES ==> acts@.map_values(|x: Activity| x@) == seq![a@]
                + old_acts,
        decreases acts@.len(),
    {
        proof {
            assert((seq![a@] + old_acts).take(acts@.len() as int).take(acts@.len() - 1)
                =~= (seq![a@] + old_acts).take(acts@.len() - 1));
            assert(acts@.map_values(|x: Activity| x@).take(acts@.len() - 1) =~= acts@.take(
                acts@.len() - 1,
            ).map_values(|x: Activity| x@));
        }
        acts.pop();
    }
    let r = Profile {
        username,
        email,
        join_date,
        total_time,
        avatar,
        signature,
        activities: acts,
    };
    proof {
        assert(r@ =~~= spec_append_activity(p@, a@));
    }
    r
}

/// Folding a sequence of activity appends over a profile, oldest append
/// first.
pub open spec fn spec_append_all(p: ProfileView, acts: Seq<ActivityView>) -> ProfileView
    decreases acts.len(),
{
    if acts.len() == 0 {
        p
    } else {
        spec_append_all(spec_append_activity(p, acts[0]), acts.skip(1))
    }
}

/// Appending activities one by one keeps the log bounded and newest first:
/// after any number of appends the log is the appended activities in
/// reverse append order, then the previous entries, truncated to the
/// newest `MAX_ACTIVITIES`; every other field passes through unchanged. In
/// particular sixty appends to any profile leave exactly `MAX_ACTIVITIES`
/// entries, the newest fifty, and drop the oldest.
pub proof fn lemma_append_all(p: ProfileView, acts: Seq<ActivityView>)
    requires
        acts.len() >= 1,
    ensures
        ({
            let r = spec_append_all(p, acts);
            let keep = if p.activities.len() + acts.len() <= MAX_ACTIVITIES as int {
                p.activities.len() + acts.len() as int
            } else {
                MAX_ACTIVITIES as int
            };
            r.activities == (acts.reverse() + p.activities).take(keep) && r.username
                == p.username && r.email == p.email && r.join_date == p.join_date
                && r.total_time == p.total_time && r.avatar == p.avatar && r.signature
                == p.signature
        }),
    decreases acts.len(),
{
    let q = spec_append_activity(p, acts[0]);
    if acts.len() == 1 {
        assert(acts.reverse() =~= seq![acts[0]]);
        assert(spec_append_all(p, acts) == q);
        if p.activities.len() + 1 <= MAX_ACTIVITIES as int {
            assert(q.activities =~= (acts.reverse() + p.activities).take(
                p.activities.len() + 1 as int,
            ));
        } else {
            assert(q.activities =~= (acts.reverse() + p.activities).take(MAX_ACTIVITIES as int));
        }
    } else {
        lemma_append_all(q, acts.skip(1));
        assert(acts.reverse() =~= acts.skip(1).reverse() + seq![acts[0]]);
        let r = spec_append_all(p, acts);
        let keep = if p.activities.len() + acts.len() <= MAX_ACTIVITIES as int {
            p.activities.len() + acts.len() as int
        } else {
            MAX_ACTIVITIES as int
        };
        assert(r.activities =~= (acts.reverse() + p.activities).take(keep));
    }
}

/// Build a fresh activity for the given action and target: its id is the
/// current time in milliseconds, rendered in decimal, and its timestamp
/// the current time rendered as an ISO 8601 string.
pub fn make_activity(action: String, target: String) -> (r: Activity)
    ensures
        r@.action == action@,
        r@.target == target@,
        exists|ms: i64| r@.id == ser_i64(ms as int),
        r@.timestamp.len() > 0,
{
    let ms = now_unix_millis();
    let id = i64_to_string(ms);
    let timestamp = now_rfc3339();
    let r = Activity { id, action, target, timestamp };
    proof {
        assert(r@.id == ser_i64(ms as int));
    }
    r
}

/// Unparseable file contents are recovered, not reported: the fetch hands
/// back the default profile for the current timestamp and leaves the file
/// untouched.
pub proof fn lemma_corrupt_recovery(text: Seq<char>, now: Seq<char>)
    requires
        parse_profile(text) is None,
    ensures
        spec_fetch(Option::Some(text), now) == (FetchPlanView::Clean {
            profile: default_profile_view(now),
        }),
{
}

/// After a replace persisted a profile's document, a fetch at any later
/// time hands exactly that profile back, with nothing to write: the parser
/// inverts the serializer, and a profile with a join date needs no repair.
pub proof fn lemma_replace_then_fetch(pv: ProfileView, now: Seq<char>)
    requires
        i64::MIN <= pv.total_time <= i64::MAX,
        pv.join_date is Some,
    ensures
        spec_fetch(Option::Some(ser_profile(pv)), now) == (FetchPlanView::Clean { profile: pv }),
{
    crate::codec::lemma_round_trip(pv);
}

/// Fetching a stored profile whose join date is null repairs it: the fetch
/// hands back the same profile with the join date set to the current
/// timestamp, and asks for exactly that profile's document to be
/// persisted.
pub proof fn lemma_join_date_repair(pv: ProfileView, now: Seq<char>)
    requires
        i64::MIN <= pv.total_time <= i64::MAX,
        pv.join_date is None,
    ensures
        ({
            let q = ProfileView { join_date: Option::Some(now), ..pv };
            spec_fetch(Option::Some(ser_profile(pv)), now) == (FetchPlanView::Repaired {
                profile: q,
                file: ser_profile(q),
            })
        }),
{
    crate::codec::lemma_round_trip(pv);
}

/// Fetching is idempotent up to the at-most-one repair write: whatever a
/// fetch wrote, a second fetch of the written document hands the same
/// profile back cleanly; and a clean fetch of a parseable document gives
/// the same answer at any time.
pub proof fn lemma_fetch_idempotent(contents: Option<Seq<char>>, now1: Seq<char>, now2: Seq<char>)
    ensures
        spec_fetch(contents, now1) matches FetchPlanView::FirstRun { profile, file }
            ==> spec_fetch(Option::Some(file), now2) == (FetchPlanView::Clean { profile }),
        spec_fetch(contents, now1) matches FetchPlanView::Repaired { profile, file }
            ==> spec_fetch(Option::Some(file), now2) == (FetchPlanView::Clean { profile }),
        (contents matches Option::Some(text) && parse_profile(text) matches Option::Some(pv)
            && pv.join_date is Some) ==> spec_fetch(contents, now2) == spec_fetch(
            contents,
            now1,
        ),
{
    match contents {
        Option::None => {
            let d = default_profile_view(now1);
            crate::codec::lemma_round_trip(d);
        },
        Option::Some(text) => {
            crate::codec::lemma_parse_total_time_bounds(text);
            match parse_profile(text) {
                Option::None => {},
                Option::Some(pv) => {
                    if pv.join_date is Some {
                    } else {
                        let q = ProfileView { join_date: Option::Some(now1), ..pv };
                        crate::codec::lemma_round_trip(q);
                    }
                },
            }
        },
    }
}

/// One activity-logging step on an already fetched profile: a fresh
/// activity for `action` and `target` is prepended to the log, the log is
/// trimmed to the newest `MAX_ACTIVITIES` entries, and every other field
/// passes through unchanged. The caller persists the result.
pub fn log_activity_update(p: Profile, action: String, target: String) -> (r: Profile)
    ensures
        exists|a: ActivityView|
            #[trigger] spec_append_activity(p@, a) == r@ && a.action == action@ && a.target
                == target@,
        r@.activities.len() == if p@.activities.len() + 1 <= MAX_ACTIVITIES as int {
            p@.activities.len() + 1 as int
        } else {
            MAX_ACTIVITIES as int
        },
        r@.activities[0].action == action@,
        r@.activities[0].target == target@,
        forall|k: int|
            1 <= k < r@.activities.len() ==> r@.activities[k] == p@.activities[k - 1],
        r@.username == p@.username,
        r@.email == p@.email,
        r@.join_date == p@.join_date,
        r@.total_time == p@.total_time,
        r@.avatar == p@.avatar,
        r@.signature == p@.signature,
{
    let a = make_activity(action, target);
    let ghost av = a@;
    let r = append_activity(p, a);
    proof {
        assert(spec_append_activity(p@, av) == r@);
    }
    r
}

} // verus!
