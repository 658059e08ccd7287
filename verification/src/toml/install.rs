use vstd::prelude::*;
use vstd::string::StringExecFns;
use crate::errors::SinkError;
use crate::errors::SinkErrorView;
use crate::errors::ValidationError;
use crate::errors::ValidationErrorView;
use crate::github::dependency::dependency_of;
use crate::github::dependency::DependencyView;
use crate::github::dependency::GitHubDependency;
use crate::toml::entry::DependencyType;
use crate::toml::entry::EntryView;
use crate::toml::grouping::Entries;
use crate::toml::grouping::EntriesView;
use crate::toml::grouping::Grouping;
use crate::toml::grouping::GroupingView;
use crate::toml::grouping::GroupsView;
use crate::toml::load::owner_for;
use crate::toml::manifest::ManifestView;
use crate::toml::manifest::ProvidersView;
use crate::toml::manifest::SinkTOML;

verus! {

/// What is to be installed for one entry, or why nothing is.
pub type Installable = Result<GitHubDependency, SinkError>;

/// Mathematical model of an [`Installable`].
pub type InstallableView = Result<DependencyView, SinkErrorView>;

/// The model of what is to be installed for one entry.
pub open spec fn installable_view(outcome: Installable) -> InstallableView {
    match outcome {
        Ok(dependency) => Ok(dependency@),
        Err(e) => Err(e@),
    }
}

/// The model of what is to be installed for a manifest.
pub open spec fn plan_view(plan: Seq<Installable>) -> Seq<InstallableView> {
    Seq::new(plan.len(), |i: int| installable_view(plan[i]))
}

/// What is to be installed for one entry. An entry in the full form is
/// installed as it stands. One in the short form names its assets by its
/// key, goes to the directory of the manifest and is ignored by version
/// control. One that is no dependency is reported by provider and key.
pub open spec fn resolved(
    entry: EntryView,
    provider: Seq<char>,
    key: Seq<char>,
    default_owner: Option<Seq<char>>,
) -> InstallableView {
    match entry {
        EntryView::Full(dependency) => Ok(dependency),
        EntryView::Version(version) => match dependency_of(
            key,
            None,
            Some(version),
            true,
            default_owner,
        ) {
            Ok(dependency) => Ok(dependency),
            Err(e) => Err(SinkErrorView::Parse(e)),
        },
        EntryView::Invalid(_) => Err(
            SinkErrorView::Validation(ValidationErrorView::MalformedEntries { provider, key }),
        ),
    }
}

/// What is to be installed for the entries of a list or group, in order.
pub open spec fn plan_of_entries(
    entries: EntriesView,
    provider: Seq<char>,
    default_owner: Option<Seq<char>>,
) -> Seq<InstallableView> {
    Seq::new(entries.len(), |i: int| resolved(entries[i].1, provider, entries[i].0, default_owner))
}

/// What is to be installed for the groups of a provider, group by group.
pub open spec fn plan_of_groups(
    groups: GroupsView,
    provider: Seq<char>,
    default_owner: Option<Seq<char>>,
) -> Seq<InstallableView>
    decreases groups.len(),
{
    if groups.len() == 0 {
        Seq::empty()
    } else {
        plan_of_groups(groups.drop_last(), provider, default_owner) + plan_of_entries(
            groups.last().1,
            provider,
            default_owner,
        )
    }
}

/// What is to be installed for the dependencies of a provider; nothing
/// where it has none or where they are of no known shape.
pub open spec fn plan_of_grouping(
    container: Option<GroupingView>,
    provider: Seq<char>,
    default_owner: Option<Seq<char>>,
) -> Seq<InstallableView> {
    match container {
        Some(GroupingView::Singular(entries)) => plan_of_entries(entries, provider, default_owner),
        Some(GroupingView::Grouped(groups)) => plan_of_groups(groups, provider, default_owner),
        _ => Seq::empty(),
    }
}

/// What is to be installed for some providers, provider by provider. The
/// owner of an entry that names none is the default of its provider, else
/// that of the manifest.
pub open spec fn plan_of_providers(
    providers: ProvidersView,
    manifest_owner: Option<Seq<char>>,
) -> Seq<InstallableView>
    decreases providers.len(),
{
    if providers.len() == 0 {
        Seq::empty()
    } else {
        plan_of_providers(providers.drop_last(), manifest_owner) + plan_of_grouping(
            providers.last().1.dependencies,
            providers.last().0,
            owner_for(providers.last().1.default_owner, manifest_owner),
        )
    }
}

/// What is to be installed for a manifest: one outcome for each entry, in
/// the order of the manifest.
pub open spec fn install_plan(model: ManifestView) -> Seq<InstallableView> {
    plan_of_providers(model.providers, model.default_owner)
}

/// Adds to a plan what is to be installed for the entries of a list or
/// group.
pub(crate) fn plan_entries(
    plan: &mut Vec<Installable>,
    entries: &Entries,
    provider: &str,
    default_owner: &Option<String>,
)
    ensures
        plan_view(final(plan)@) == plan_view(old(plan)@) + plan_of_entries(
            entries.deep_view(),
            provider@,
            default_owner.deep_view(),
        ),
{
    let ghost before = plan_view(plan@);
    let ghost all = plan_of_entries(entries.deep_view(), provider@, default_owner.deep_view());
    let mut i: usize = 0;
    assert(plan_view(plan@) =~= before + all.take(0));
    while i < entries.len()
        invariant
            i <= entries.len(),
            all == plan_of_entries(entries.deep_view(), provider@, default_owner.deep_view()),
            plan_view(plan@) == before + all.take(i as int),
        decreases entries.len() - i,
    {
        assert(entries.deep_view()[i as int].0 == entries[i as int].0@);
        assert(entries.deep_view()[i as int].1 == entries[i as int].1@);
        let outcome = entries[i].1.resolve(provider, entries[i].0.as_str(), default_owner);
        let ghost earlier = plan@;
        plan.push(outcome);
        assert(plan_view(plan@) =~= plan_view(earlier).push(installable_view(outcome)));
        assert(all.take(i + 1) =~= all.take(i as int).push(all[i as int]));
        i = i + 1;
    }
    assert(all.take(entries.len() as int) =~= all);
}

impl DependencyType {
    /// Tells what is to be installed for this entry, which stands under
    /// `key` in the dependencies of `provider`.
    pub fn resolve(&self, provider: &str, key: &str, default_owner: &Option<String>) -> (outcome:
        Installable)
        ensures
            installable_view(outcome) == resolved(
                self@,
                provider@,
                key@,
                default_owner.deep_view(),
            ),
    {
        match self {
            DependencyType::Full(dependency) => Ok(dependency.clone()),
            DependencyType::Version(version) => {
                match GitHubDependency::new(
                    String::from_str(key),
                    None,
                    Some(version.clone()),
                    true,
                    default_owner,
                ) {
                    Ok(dependency) => Ok(dependency),
                    Err(e) => Err(SinkError::Parse(e)),
                }
            },
            DependencyType::Invalid(_) => Err(
                SinkError::Validation(
                    ValidationError::MalformedEntries {
                        provider: String::from_str(provider),
                        key: String::from_str(key),
                    },
                ),
            ),
        }
    }
}

impl SinkTOML {
    /// Tells what is to be installed: one outcome for each entry of the
    /// manifest, in its order.
    pub fn install_plan(&self) -> (plan: Vec<Installable>)
        ensures
            plan_view(plan@) == install_plan(self@),
    {
        let ghost providers = self.providers.deep_view();
        let ghost manifest_owner = self.default_owner.deep_view();
        let mut plan: Vec<Installable> = Vec::new();
        let mut i: usize = 0;
        assert(providers.take(0) =~= Seq::empty());
        assert(plan_view(plan@) =~= Seq::empty());
        while i < self.providers.len()
            invariant
                i <= self.providers.len(),
                providers == self.providers.deep_view(),
                manifest_owner == self.default_owner.deep_view(),
                plan_view(plan@) == plan_of_providers(providers.take(i as int), manifest_owner),
            decreases self.providers.len() - i,
        {
            let name = self.providers[i].0.as_str();
            let section = &self.providers[i].1;
            proof {
                assert(providers.take(i + 1).drop_last() =~= providers.take(i as int));
                assert(providers.take(i + 1).last() == providers[i as int]);
                assert(providers[i as int].1 == section@);
            }
            let owner = match &section.default_owner {
                Some(_) => &section.default_owner,
                None => &self.default_owner,
            };
            match &section.dependencies {
                Some(Grouping::Singular(entries)) => {
                    plan_entries(&mut plan, entries, name, owner);
                },
                Some(Grouping::Grouped(groups)) => {
                    let ghost before = plan_view(plan@);
                    let ghost all = groups.deep_view();
                    let mut j: usize = 0;
                    assert(all.take(0) =~= Seq::empty());
                    assert(plan_view(plan@) =~= before + plan_of_groups(
                        all.take(0),
                        name@,
                        owner.deep_view(),
                    ));
                    while j < groups.len()
                        invariant
                            j <= groups.len(),
                            all == groups.deep_view(),
                            plan_view(plan@) == before + plan_of_groups(
                                all.take(j as int),
                                name@,
                                owner.deep_view(),
                            ),
                        decreases groups.len() - j,
                    {
                        proof {
                            assert(all.take(j + 1).drop_last() =~= all.take(j as int));
                            assert(all.take(j + 1).last() == all[j as int]);
                            assert(all[j as int].1 == groups[j as int].1.deep_view());
                        }
                        let ghost earlier = plan_view(plan@);
                        plan_entries(&mut plan, &groups[j].1, name, owner);
                        assert(plan_view(plan@) =~= before + plan_of_groups(
                            all.take(j + 1),
                            name@,
                            owner.deep_view(),
                        ));
                        j = j + 1;
                    }
                    assert(all.take(groups.len() as int) =~= all);
                },
                _ => {
                    assert(plan_view(plan@) =~= plan_view(plan@) + Seq::empty());
                },
            }
            i = i + 1;
        }
        assert(providers.take(self.providers.len() as int) =~= providers);
        plan
    }
}

} // verus!
