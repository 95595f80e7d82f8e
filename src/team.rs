use vstd::prelude::*;
use crate::lang::Language;
use crate::text::clone_opt_string;

verus! {

/// The working groups of the association.
#[derive(Debug, Clone, Copy, PartialEq, Eq, Structural)]
pub enum WorkingGroup {
    Technical,
    Network,
    Service,
    DevOps,
    Events,
    FinancesAndLaw,
    ClientsAndSponsors,
    PublicRelations,
}

/// Where a team member can be found.
pub struct Socials {
    pub github: Option<String>,
    pub email: Option<String>,
    pub mastodon: Option<String>,
    pub website: Option<String>,
    pub linkedin: Option<String>,
}

/// A team member, whose description is a `T`: one text per language in the roster,
/// the text of one language in answers.
pub struct TeamMember<T> {
    pub name: String,
    pub nick: Option<String>,
    pub vorstand: bool,
    pub teams: Vec<WorkingGroup>,
    pub ripe_handle: Option<String>,
    pub description: T,
    pub image: String,
    pub socials: Socials,
}

/// The description of `lang` among `texts`: the first one given for it.
pub open spec fn text_for(texts: Seq<(Language, String)>, lang: Language) -> Option<String>
    decreases texts.len(),
{
    if texts.len() == 0 {
        None
    } else if texts[0].0 == lang {
        Some(texts[0].1)
    } else {
        text_for(texts.drop_first(), lang)
    }
}

/// Whether a roster entry has a description in `lang`.
pub open spec fn described_in(m: TeamMember<Vec<(Language, String)>>, lang: Language) -> bool {
    text_for(m.description@, lang) is Some
}

/// Whether `out` is `m` with the description of `lang`.
pub open spec fn member_in(out: TeamMember<String>, m: TeamMember<Vec<(Language, String)>>, lang: Language) -> bool {
    &&& out.name == m.name
    &&& out.nick == m.nick
    &&& out.vorstand == m.vorstand
    &&& out.teams@ == m.teams@
    &&& out.ripe_handle == m.ripe_handle
    &&& Some(out.description) == text_for(m.description@, lang)
    &&& out.image == m.image
    &&& out.socials == m.socials
}

fn find_text(texts: &Vec<(Language, String)>, lang: Language) -> (r: Option<String>)
    ensures
        r == text_for(texts@, lang),
{
    let mut i: usize = 0;
    assert(texts@.skip(0) =~= texts@);
    while i < texts.len()
        invariant
            i <= texts@.len(),
            text_for(texts@, lang) == text_for(texts@.skip(i as int), lang),
        decreases texts.len() - i,
    {
        assert(texts@.skip(i as int)[0] == texts@[i as int]);
        assert(texts@.skip(i as int).drop_first() =~= texts@.skip(i + 1));
        if texts[i].0 == lang {
            return Some(texts[i].1.clone());
        }
        i = i + 1;
    }
    assert(texts@.skip(i as int) =~= Seq::<(Language, String)>::empty());
    None
}

fn copy_groups(v: &Vec<WorkingGroup>) -> (r: Vec<WorkingGroup>)
    ensures
        r@ == v@,
{
    let mut r: Vec<WorkingGroup> = Vec::new();
    let mut i: usize = 0;
    while i < v.len()
        invariant
            i <= v@.len(),
            r@ == v@.take(i as int),
        decreases v.len() - i,
    {
        r.push(v[i]);
        assert(r@ =~= v@.take(i + 1));
        i = i + 1;
    }
    assert(v@.take(i as int) =~= v@);
    r
}

impl Socials {
    /// A copy of these links.
    pub fn duplicate(&self) -> (r: Socials)
        ensures
            r == *self,
    {
        Socials {
            github: clone_opt_string(&self.github),
            email: clone_opt_string(&self.email),
            mastodon: clone_opt_string(&self.mastodon),
            website: clone_opt_string(&self.website),
            linkedin: clone_opt_string(&self.linkedin),
        }
    }
}

/// The team roster, each member with descriptions in some languages.
pub struct Team {
    members: Vec<TeamMember<Vec<(Language, String)>>>,
}

impl Team {
    pub closed spec fn members_spec(&self) -> Seq<TeamMember<Vec<(Language, String)>>> {
        self.members@
    }

    /// Whether every member has a description in `lang`.
    pub open spec fn all_described_in(&self, lang: Language) -> bool {
        forall|i: int| 0 <= i < self.members_spec().len() ==> described_in(#[trigger] self.members_spec()[i], lang)
    }

    /// The roster, in the order given.
    pub fn new(members: Vec<TeamMember<Vec<(Language, String)>>>) -> (r: Team)
        ensures
            r.members_spec() == members@,
    {
        Team { members }
    }

    /// Whether every member has a description in `lang`, so that `members` can answer.
    pub fn describes_all_in(&self, lang: &Language) -> (r: bool)
        ensures
            r == self.all_described_in(*lang),
    {
        let mut i: usize = 0;
        while i < self.members.len()
            invariant
                i <= self.members@.len(),
                forall|k: int| 0 <= k < i ==> described_in(#[trigger] self.members_spec()[k], *lang),
            decreases self.members.len() - i,
        {
            if find_text(&self.members[i].description, *lang).is_none() {
                assert(!described_in(self.members_spec()[i as int], *lang));
                return false;
            }
            i = i + 1;
        }
        true
    }

    /// The roster with each member's description in `lang`.
    pub fn members(&self, lang: &Language) -> (r: Vec<TeamMember<String>>)
        requires
            self.all_described_in(*lang),
        ensures
            r@.len() == self.members_spec().len(),
            forall|i: int| 0 <= i < r@.len() ==> member_in(#[trigger] r@[i], self.members_spec()[i], *lang),
    {
        let mut r: Vec<TeamMember<String>> = Vec::new();
        let mut i: usize = 0;
        while i < self.members.len()
            invariant
                i <= self.members@.len(),
                self.all_described_in(*lang),
                r@.len() == i,
                forall|k: int| 0 <= k < i ==> member_in(#[trigger] r@[k], self.members_spec()[k], *lang),
            decreases self.members.len() - i,
        {
            let member = &self.members[i];
            assert(described_in(self.members_spec()[i as int], *lang));
            let description = match find_text(&member.description, *lang) {
                Some(d) => d,
                None => {
                    assert(false);
                    String::new()
                },
            };
            r.push(
                TeamMember {
                    name: member.name.clone(),
                    nick: clone_opt_string(&member.nick),
                    vorstand: member.vorstand,
                    teams: copy_groups(&member.teams),
                    ripe_handle: clone_opt_string(&member.ripe_handle),
                    description,
                    image: member.image.clone(),
                    socials: member.socials.duplicate(),
                },
            );
            i = i + 1;
        }
        r
    }
}

} // verus!
