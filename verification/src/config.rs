//! Configuration of the agent.

use vstd::prelude::*;
use crate::load::Load;
use crate::text::{decimal, same};
#[allow(unused_imports)]
use crate::text::decimal_of;

verus! {

/// What VMs of one profile may have.
#[derive(Debug)]
pub struct Profile {
    /// A VM whose ISO or tag holds this text, whatever its case, has the profile.
    pub iso_pattern: String,
    /// The least number of vCPUs.
    pub min: u32,
    /// The greatest number of vCPUs.
    pub max: u32,
}

/// What a profile holds.
pub struct ProfileView {
    pub iso_pattern: Seq<char>,
    pub min: u32,
    pub max: u32,
}

impl View for Profile {
    type V = ProfileView;

    open spec fn view(&self) -> ProfileView {
        ProfileView { iso_pattern: self.iso_pattern@, min: self.min, max: self.max }
    }
}

impl Clone for Profile {
    fn clone(&self) -> (r: Profile)
        ensures
            r@ == self@,
    {
        Profile { iso_pattern: self.iso_pattern.clone(), min: self.min, max: self.max }
    }
}

/// A profile under its name.
#[derive(Debug)]
pub struct NamedProfile {
    pub name: String,
    pub profile: Profile,
}

impl View for NamedProfile {
    type V = (Seq<char>, ProfileView);

    open spec fn view(&self) -> (Seq<char>, ProfileView) {
        (self.name@, self.profile@)
    }
}

/// What a list of named profiles holds.
pub open spec fn profiles_view(v: Seq<NamedProfile>) -> Seq<(Seq<char>, ProfileView)> {
    v.map_values(|p: NamedProfile| p@)
}

/// No name stands twice.
pub open spec fn names_differ(p: Seq<(Seq<char>, ProfileView)>) -> bool {
    forall|i: int, j: int| 0 <= i < j < p.len() ==> (#[trigger] p[i]).0 != (#[trigger] p[j]).0
}

/// The position of the profile with a name, if there is one.
pub open spec fn position_named(p: Seq<(Seq<char>, ProfileView)>, name: Seq<char>) -> Option<int> {
    if exists|i: int| 0 <= i < p.len() && (#[trigger] p[i]).0 == name {
        Some(choose|i: int| 0 <= i < p.len() && (#[trigger] p[i]).0 == name)
    } else {
        None
    }
}

/// Finds a profile by its name.
pub fn profile_named(profiles: &Vec<NamedProfile>, name: &str) -> (r: Option<usize>)
    requires
        names_differ(profiles_view(profiles@)),
    ensures
        match r {
            Some(i) => position_named(profiles_view(profiles@), name@) == Some(i as int),
            None => position_named(profiles_view(profiles@), name@) is None,
        },
{
    let ghost p = profiles_view(profiles@);
    let mut i: usize = 0;
    while i < profiles.len()
        invariant
            i <= profiles@.len(),
            p == profiles_view(profiles@),
            names_differ(p),
            forall|j: int| 0 <= j < i ==> (#[trigger] p[j]).0 != name@,
        decreases profiles@.len() - i,
    {
        if same(profiles[i].name.as_str(), name) {
            assert(p[i as int].0 == name@);
            return Some(i);
        }
        assert(p[i as int].0 != name@);
        i = i + 1;
    }
    None
}

/// The agent's settings. Loads stand for the thresholds of the configuration file.
#[derive(Debug)]
pub struct AppConfig {
    pub profiles: Vec<NamedProfile>,
    /// Seconds between two cycles.
    pub check_interval: u64,
    /// How many measures of a VM are kept.
    pub window_size: usize,
    /// How many measures of a VM must reach the threshold before it is lent a vCPU; with fewer
    /// measures in all nothing is done about it. At most `window_size`.
    pub min_samples_before_action: usize,
    /// From this load on a VM is in distress.
    pub seuil_detresse: Load,
    /// Up to this load a VM may lend.
    pub seuil_donneuse: Load,
    /// Up to this load a VM may give back what it borrowed.
    pub seuil_remboursement: Load,
    /// How many cycles a VM must be in distress or at rest before it borrows, lends or pays back.
    pub duree_avant_action: usize,
    /// Seconds before a VM may be asked to migrate again.
    pub migration_cooldown_seconds: u64,
    /// How many cycles a VM must be in distress before it is asked to migrate.
    pub distress_before_migration: usize,
    /// How many cycles after a change of its vCPUs a VM is left out of the measures, and so of the
    /// decisions; the next one is left out in any case.
    pub vcpu_change_cooldown_cycles: usize,
}

impl AppConfig {
    /// As many measures can be kept as are asked for.
    pub open spec fn holds(self) -> bool {
        self.min_samples_before_action <= self.window_size
    }

    /// Refuses settings that ask for more measures than are kept, with what is to be told.
    pub fn check(&self) -> (r: Result<(), String>)
        ensures
            r is Ok <==> self.holds(),
            r is Err <==> self.min_samples_before_action > self.window_size,
            r is Err ==> r->Err_0@ == "min_samples_before_action ("@ + decimal_of(
                self.min_samples_before_action as nat,
            ) + ") doit être ≤ window_size ("@ + decimal_of(self.window_size as nat) + ")"@,
    {
        if self.min_samples_before_action <= self.window_size {
            Ok(())
        } else {
            Err(
                "min_samples_before_action (".to_owned().concat(
                    decimal(self.min_samples_before_action as u64).as_str(),
                ).concat(") doit être ≤ window_size (").concat(
                    decimal(self.window_size as u64).as_str(),
                ).concat(")"),
            )
        }
    }
}

/// How many measures of a VM are kept by default.
pub fn default_window_size() -> (r: usize)
    ensures
        r == 2,
{
    2
}

/// How many measures there must be by default.
pub fn default_min_samples_before_action() -> (r: usize)
    ensures
        r == 1,
{
    1
}

/// Seconds between two requests to migrate by default.
pub fn default_migration_cooldown() -> (r: u64)
    ensures
        r == 100,
{
    100
}

/// Cycles of distress before a request to migrate by default.
pub fn default_distress_before_mig() -> (r: usize)
    ensures
        r == 4,
{
    4
}

/// Cycles before a VM borrows, lends or pays back by default.
pub fn default_duree() -> (r: usize)
    ensures
        r == 2,
{
    2
}

/// Cycles without measure after a change by default.
pub fn default_vcpu_change_cooldown() -> (r: usize)
    ensures
        r == 2,
{
    2
}

} // verus!
