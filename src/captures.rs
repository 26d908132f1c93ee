use vstd::prelude::*;

verus! {

/// The named capture groups that took part in a match, as pairs of name and
/// matched text, in group order: from `names` (the name of each group, by
/// index) and `texts` (the text each group took, by index), the first `n`
/// groups.
pub open spec fn named_pairs(
    names: Seq<Option<Seq<char>>>,
    texts: Seq<Option<Seq<char>>>,
    n: nat,
) -> Seq<(Seq<char>, Seq<char>)>
    decreases n,
{
    if n == 0 {
        seq![]
    } else {
        let before = named_pairs(names, texts, (n - 1) as nat);
        match (names[n - 1], texts[n - 1]) {
            (Some(name), Some(text)) => before.push((name, text)),
            _ => before,
        }
    }
}

/// Every group of `names` that has a name and took a text in `texts`.
pub open spec fn named_captures(
    names: Seq<Option<Seq<char>>>,
    texts: Seq<Option<Seq<char>>>,
) -> Seq<(Seq<char>, Seq<char>)> {
    named_pairs(names, texts, names.len())
}

/// The pieces of a request path that a route's pattern captured: the text of
/// every group by index (group 0 is the whole match), and the named groups
/// that took part, each with its text.
pub struct Captures {
    pairs: Vec<(String, String)>,
    groups: Vec<Option<String>>,
}

/// What a `Captures` holds, as values: the named groups that took part with
/// their text, in group order, and the text of each group by index.
pub struct CaptureView {
    pub named: Seq<(Seq<char>, Seq<char>)>,
    pub groups: Seq<Option<Seq<char>>>,
}

pub open spec fn opt_view(o: Option<String>) -> Option<Seq<char>> {
    match o {
        Some(s) => Some(s@),
        None => None,
    }
}

pub open spec fn opt_str_view(o: Option<&str>) -> Option<Seq<char>> {
    match o {
        Some(s) => Some(s@),
        None => None,
    }
}

/// The model of an optional `Captures`.
pub open spec fn opt_model(o: Option<Captures>) -> Option<CaptureView> {
    match o {
        Some(c) => Some(c.model()),
        None => None,
    }
}

impl Captures {
    /// The captured pairs of group name and text, in group order.
    pub closed spec fn view(&self) -> Seq<(Seq<char>, Seq<char>)> {
        self.pairs@.map_values(|p: (String, String)| (p.0@, p.1@))
    }

    /// The text of each group by index; `None` for a group that took no part.
    pub closed spec fn groups(&self) -> Seq<Option<Seq<char>>> {
        self.groups@.map_values(|o: Option<String>| opt_view(o))
    }

    /// Both parts at once.
    pub open spec fn model(&self) -> CaptureView {
        CaptureView { named: self.view(), groups: self.groups() }
    }

    /// Collects the named groups that took part in a match, from the name of
    /// each group and the text that each group took, both by group index.
    pub fn from_groups(names: &Vec<Option<String>>, texts: Vec<Option<String>>) -> (r: Captures)
        requires
            names@.len() == texts@.len(),
        ensures
            r.view() == named_captures(
                names@.map_values(|o: Option<String>| opt_view(o)),
                texts@.map_values(|o: Option<String>| opt_view(o)),
            ),
            r.groups() == texts@.map_values(|o: Option<String>| opt_view(o)),
    {
        let ghost nv = names@.map_values(|o: Option<String>| opt_view(o));
        let ghost tv = texts@.map_values(|o: Option<String>| opt_view(o));
        let mut pairs: Vec<(String, String)> = Vec::new();
        let mut i: usize = 0;
        while i < names.len()
            invariant
                i <= names@.len(),
                names@.len() == texts@.len(),
                nv == names@.map_values(|o: Option<String>| opt_view(o)),
                tv == texts@.map_values(|o: Option<String>| opt_view(o)),
                pairs@.map_values(|p: (String, String)| (p.0@, p.1@)) == named_pairs(nv, tv, i as nat),
            decreases names@.len() - i,
        {
            let ghost before = pairs@;
            match (&names[i], &texts[i]) {
                (Some(name), Some(text)) => {
                    pairs.push((name.clone(), text.clone()));
                    proof {
                        assert(pairs@.map_values(|p: (String, String)| (p.0@, p.1@)) =~= before.map_values(
                            |p: (String, String)| (p.0@, p.1@),
                        ).push((name@, text@)));
                    }
                },
                _ => {},
            }
            i = i + 1;
        }
        Captures { pairs, groups: texts }
    }

    /// The number of groups of the pattern, group 0 included.
    pub fn group_count(&self) -> (r: usize)
        ensures
            r == self.groups().len(),
    {
        self.groups.len()
    }

    /// The text taken by group `index` (0 is the whole match), if that group
    /// exists and took part.
    pub fn group(&self, index: usize) -> (r: Option<&str>)
        ensures
            index >= self.groups().len() ==> r is None,
            index < self.groups().len() ==> opt_str_view(r) == self.groups()[index as int],
    {
        if index < self.groups.len() {
            match &self.groups[index] {
                Some(t) => Some(t.as_str()),
                None => None,
            }
        } else {
            None
        }
    }

    /// The number of named groups captured.
    pub fn len(&self) -> (r: usize)
        ensures
            r == self.view().len(),
    {
        self.pairs.len()
    }

    /// Whether no named group was captured.
    pub fn is_empty(&self) -> (r: bool)
        ensures
            r == (self.view().len() == 0),
    {
        self.pairs.len() == 0
    }

    /// The text captured by the group called `name`, if one took part.
    pub fn get(&self, name: &str) -> (r: Option<&str>)
        ensures
            r is None <==> (forall|k: int| 0 <= k < self.view().len() ==> #[trigger] self.view()[k].0 != name@),
            r matches Some(t) ==> exists|k: int|
                0 <= k < self.view().len() && #[trigger] self.view()[k] == (name@, t@),
    {
        let key = name.to_owned();
        let mut i: usize = 0;
        while i < self.pairs.len()
            invariant
                key@ == name@,
                i <= self.pairs@.len(),
                forall|k: int| 0 <= k < i ==> #[trigger] self.view()[k].0 != name@,
            decreases self.pairs@.len() - i,
        {
            proof {
                assert(self.view()[i as int] == (self.pairs@[i as int].0@, self.pairs@[i as int].1@));
            }
            if self.pairs[i].0 == key {
                assert(self.view()[i as int].0 == name@);
                return Some(self.pairs[i].1.as_str());
            }
            i = i + 1;
        }
        None
    }
}

} // verus!
