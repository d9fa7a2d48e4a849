use vstd::prelude::*;
use vstd::hash_map::StringHashMap;

verus! {

/// Interns names into dense ids, handed out in first-use order from 0.
pub struct Ider {
    ids: StringHashMap<usize>,
    names: Vec<String>,
}

impl View for Ider {
    type V = Seq<Seq<char>>;

    /// The interned names; a name's id is its position.
    closed spec fn view(&self) -> Seq<Seq<char>> {
        self.names@.map_values(|s: String| s@)
    }
}

/// The names after interning `s`: unchanged when present, else `s` appended.
pub open spec fn interned(names: Seq<Seq<char>>, s: Seq<char>) -> Seq<Seq<char>> {
    if names.contains(s) {
        names
    } else {
        names.push(s)
    }
}

impl Ider {
    /// The map from names to ids agrees with the list of names.
    pub closed spec fn wf(&self) -> bool {
        &&& forall|i: int|
            0 <= i < self.names@.len() ==> #[trigger] self.ids@.contains_key(self.names@[i]@)
                && self.ids@[self.names@[i]@] == i
        &&& forall|k: Seq<char>|
            #[trigger] self.ids@.contains_key(k) ==> self.ids@[k] < self.names@.len()
                && self.names@[self.ids@[k] as int]@ == k
    }

    /// An interner that has handed out no id.
    pub fn new() -> (r: Self)
        ensures
            r.wf(),
            r@ == Seq::<Seq<char>>::empty(),
    {
        let r = Ider { ids: StringHashMap::new(), names: Vec::new() };
        assert(r@ =~= Seq::<Seq<char>>::empty());
        r
    }

    /// The id of `string`, allocating the next one when it is new.
    pub fn get_id(&mut self, string: String) -> (r: usize)
        requires
            old(self).wf(),
        ensures
            final(self).wf(),
            final(self)@ == interned(old(self)@, string@),
            r < final(self)@.len(),
            final(self)@[r as int] == string@,
    {
        proof {
            self.lemma_distinct();
        }
        match self.ids.get(string.as_str()) {
            Some(id) => {
                let id = *id;
                assert(old(self)@[id as int] == string@);
                assert(old(self)@.contains(string@));
                id
            },
            None => {
                let id = self.names.len();
                assert(!old(self)@.contains(string@)) by {
                    if old(self)@.contains(string@) {
                        let i = choose|i: int| 0 <= i < old(self)@.len() && old(self)@[i] == string@;
                        assert(self.names@[i]@ == string@);
                    }
                };
                self.ids.insert(string.clone(), id);
                self.names.push(string);
                assert(self@ =~= old(self)@.push(string@));
                id
            },
        }
    }

    /// The number of ids handed out so far.
    pub fn len(&self) -> (r: usize)
        requires
            self.wf(),
        ensures
            r == self@.len(),
    {
        self.names.len()
    }

    /// The name of `id`, or "unnamed" for an id never handed out.
    pub fn name(&self, id: usize) -> (r: String)
        requires
            self.wf(),
        ensures
            r@ == if id < self@.len() {
                self@[id as int]
            } else {
                "unnamed"@
            },
    {
        if id < self.names.len() {
            self.names[id].clone()
        } else {
            "unnamed".to_owned()
        }
    }

    /// Proof that interned names are pairwise distinct.
    pub proof fn lemma_distinct(&self)
        requires
            self.wf(),
        ensures
            self@.no_duplicates(),
    {
        assert forall|i: int, j: int|
            0 <= i < self@.len() && 0 <= j < self@.len() && i != j implies self@[i] != self@[j] by {
            assert(self.ids@.contains_key(self.names@[i]@));
            assert(self.ids@.contains_key(self.names@[j]@));
        };
    }
}

/// The reserved account names, in id order.
pub open spec fn builtin_account_names() -> Seq<Seq<char>> {
    seq![
        "null"@,
        "_flow"@,
        "_internal_flow"@,
        "_net"@,
        "_assets"@,
        "_tra"@,
        "_yield"@,
        "_roi"@,
        "_spending_month"@,
        "_spending_cumulative"@,
        "_receiving_month"@,
        "_receiving_cumulative"@,
    ]
}

/// The reserved asset names, in id order.
pub open spec fn builtin_asset_names() -> Seq<Seq<char>> {
    seq!["REAL_FIAT"@, "FIAT"@]
}

proof fn lemma_builtin_names_distinct()
    ensures
        builtin_account_names().no_duplicates(),
        builtin_asset_names().no_duplicates(),
{
    reveal_strlit("null");
    reveal_strlit("_flow");
    reveal_strlit("_internal_flow");
    reveal_strlit("_net");
    reveal_strlit("_assets");
    reveal_strlit("_tra");
    reveal_strlit("_yield");
    reveal_strlit("_roi");
    reveal_strlit("_spending_month");
    reveal_strlit("_spending_cumulative");
    reveal_strlit("_receiving_month");
    reveal_strlit("_receiving_cumulative");
    reveal_strlit("REAL_FIAT");
    reveal_strlit("FIAT");
    let names = builtin_account_names();
    // Length and second character tell the reserved account names apart.
    assert forall|i: int, j: int|
        0 <= i < names.len() && 0 <= j < names.len() && i != j implies names[i] != names[j] by {
        if names[i] == names[j] {
            assert(names[i].len() == names[j].len());
            assert(names[i][1] == names[j][1]);
        }
    };
    let assets = builtin_asset_names();
    assert(assets[0].len() != assets[1].len());
}

/// `names` starts with the names `b`.
pub open spec fn starts_with(names: Seq<Seq<char>>, b: Seq<Seq<char>>) -> bool {
    names.len() >= b.len() && names.subrange(0, b.len() as int) == b
}

/// Seeding name `k` of `b`: it extends a prefix of `b`, and changes nothing
/// in names that already start with `b`.
proof fn lemma_seed_next(names: Seq<Seq<char>>, b: Seq<Seq<char>>, k: int)
    requires
        b.no_duplicates(),
        0 <= k < b.len(),
        names == b.subrange(0, k) || starts_with(names, b),
    ensures
        names == b.subrange(0, k) ==> interned(names, b[k]) == b.subrange(0, k + 1),
        starts_with(names, b) ==> interned(names, b[k]) == names,
{
    if names == b.subrange(0, k) {
        lemma_intern_next(b, k);
    }
    if starts_with(names, b) {
        assert(names[k] == names.subrange(0, b.len() as int)[k]);
        assert(names.contains(b[k]));
    }
}

/// Interning the next name of a list without duplicates extends its prefix.
proof fn lemma_intern_next(names: Seq<Seq<char>>, k: int)
    requires
        names.no_duplicates(),
        0 <= k < names.len(),
    ensures
        interned(names.subrange(0, k), names[k]) == names.subrange(0, k + 1),
{
    assert(!names.subrange(0, k).contains(names[k]));
    assert(names.subrange(0, k).push(names[k]) =~= names.subrange(0, k + 1));
}

proof fn lemma_interned_keeps_prefix(names: Seq<Seq<char>>, s: Seq<char>, n: int)
    requires
        0 <= n <= names.len(),
    ensures
        interned(names, s).len() >= names.len(),
        interned(names, s).subrange(0, n) == names.subrange(0, n),
{
    assert(interned(names, s).subrange(0, n) =~= names.subrange(0, n));
}

/// Ids for accounts, assets and tags, each space interned on its own.
pub struct NameBank {
    accounts: Ider,
    assets: Ider,
    tags: Ider,
}

impl NameBank {
    pub closed spec fn accounts_view(&self) -> Seq<Seq<char>> {
        self.accounts@
    }

    pub closed spec fn assets_view(&self) -> Seq<Seq<char>> {
        self.assets@
    }

    pub closed spec fn tags_view(&self) -> Seq<Seq<char>> {
        self.tags@
    }

    /// Each space is well formed and starts with its reserved names.
    pub open spec fn wf(&self) -> bool {
        &&& self.spaces_wf()
        &&& starts_with(self.accounts_view(), builtin_account_names())
        &&& starts_with(self.assets_view(), builtin_asset_names())
    }

    pub closed spec fn spaces_wf(&self) -> bool {
        self.accounts.wf() && self.assets.wf() && self.tags.wf()
    }

    /// Proof that the names of each space are pairwise distinct.
    pub proof fn lemma_distinct(&self)
        requires
            self.spaces_wf(),
        ensures
            self.accounts_view().no_duplicates(),
            self.assets_view().no_duplicates(),
            self.tags_view().no_duplicates(),
    {
        self.accounts.lemma_distinct();
        self.assets.lemma_distinct();
        self.tags.lemma_distinct();
    }

    /// A bank holding the reserved account and asset names and no tags.
    pub fn new() -> (r: Self)
        ensures
            r.wf(),
            r.accounts_view() == builtin_account_names(),
            r.assets_view() == builtin_asset_names(),
            r.tags_view() == Seq::<Seq<char>>::empty(),
    {
        let temp = NameBank { accounts: Ider::new(), assets: Ider::new(), tags: Ider::new() };
        temp.set_defaults()
    }

    /// Registers the reserved names; a space that already starts with them
    /// is left as it is.
    fn set_defaults(self) -> (r: Self)
        requires
            self.spaces_wf(),
            self.accounts_view().len() == 0 || starts_with(
                self.accounts_view(),
                builtin_account_names(),
            ),
            self.assets_view().len() == 0 || starts_with(
                self.assets_view(),
                builtin_asset_names(),
            ),
        ensures
            r.wf(),
            self.accounts_view().len() == 0 ==> r.accounts_view() == builtin_account_names(),
            self.accounts_view().len() > 0 ==> r.accounts_view() == self.accounts_view(),
            self.assets_view().len() == 0 ==> r.assets_view() == builtin_asset_names(),
            self.assets_view().len() > 0 ==> r.assets_view() == self.assets_view(),
            r.tags_view() == self.tags_view(),
    {
        let mut nb = self;
        let ghost accs = builtin_account_names();
        let ghost asss = builtin_asset_names();
        proof {
            lemma_builtin_names_distinct();
            if nb.accounts_view().len() == 0 {
                assert(nb.accounts_view() =~= accs.subrange(0, 0));
            }
            if nb.assets_view().len() == 0 {
                assert(nb.assets_view() =~= asss.subrange(0, 0));
            }
        }
        proof { lemma_seed_next(nb.accounts_view(), accs, 0); }
        nb.account_id("null".to_owned());
        proof { lemma_seed_next(nb.accounts_view(), accs, 1); }
        nb.account_id("_flow".to_owned());
        proof { lemma_seed_next(nb.accounts_view(), accs, 2); }
        nb.account_id("_internal_flow".to_owned());
        proof { lemma_seed_next(nb.accounts_view(), accs, 3); }
        nb.account_id("_net".to_owned());
        proof { lemma_seed_next(nb.accounts_view(), accs, 4); }
        nb.account_id("_assets".to_owned());
        proof { lemma_seed_next(nb.accounts_view(), accs, 5); }
        nb.account_id("_tra".to_owned());
        proof { lemma_seed_next(nb.accounts_view(), accs, 6); }
        nb.account_id("_yield".to_owned());
        proof { lemma_seed_next(nb.accounts_view(), accs, 7); }
        nb.account_id("_roi".to_owned());
        proof { lemma_seed_next(nb.accounts_view(), accs, 8); }
        nb.account_id("_spending_month".to_owned());
        proof { lemma_seed_next(nb.accounts_view(), accs, 9); }
        nb.account_id("_spending_cumulative".to_owned());
        proof { lemma_seed_next(nb.accounts_view(), accs, 10); }
        nb.account_id("_receiving_month".to_owned());
        proof { lemma_seed_next(nb.accounts_view(), accs, 11); }
        nb.account_id("_receiving_cumulative".to_owned());
        proof { lemma_seed_next(nb.assets_view(), asss, 0); }
        nb.asset_id("REAL_FIAT".to_owned());
        proof { lemma_seed_next(nb.assets_view(), asss, 1); }
        nb.asset_id("FIAT".to_owned());
        assert(accs.subrange(0, 12) =~= accs);
        assert(asss.subrange(0, 2) =~= asss);
        proof {
            if self.accounts_view().len() > 0 {
                assert(starts_with(nb.accounts_view(), accs));
            }
            if self.assets_view().len() > 0 {
                assert(starts_with(nb.assets_view(), asss));
            }
        }
        nb
    }

    /// The id of an account name, allocating the next one when it is new.
    pub fn account_id(&mut self, string: String) -> (r: usize)
        requires
            old(self).spaces_wf(),
        ensures
            final(self).spaces_wf(),
            old(self).wf() ==> final(self).wf(),
            final(self).accounts_view() == interned(old(self).accounts_view(), string@),
            r < final(self).accounts_view().len(),
            final(self).accounts_view()[r as int] == string@,
            final(self).assets_view() == old(self).assets_view(),
            final(self).tags_view() == old(self).tags_view(),
    {
        let r = self.accounts.get_id(string);
        proof {
            if old(self).wf() {
                lemma_interned_keeps_prefix(
                    old(self).accounts_view(),
                    string@,
                    builtin_account_names().len() as int,
                );
            }
        }
        r
    }

    /// The name of an account id, or "unnamed" for an id never handed out.
    pub fn account_name(&self, id: usize) -> (r: String)
        requires
            self.spaces_wf(),
        ensures
            r@ == if id < self.accounts_view().len() {
                self.accounts_view()[id as int]
            } else {
                "unnamed"@
            },
    {
        self.accounts.name(id)
    }

    /// The id of an asset name, allocating the next one when it is new.
    pub fn asset_id(&mut self, string: String) -> (r: usize)
        requires
            old(self).spaces_wf(),
        ensures
            final(self).spaces_wf(),
            old(self).wf() ==> final(self).wf(),
            final(self).assets_view() == interned(old(self).assets_view(), string@),
            r < final(self).assets_view().len(),
            final(self).assets_view()[r as int] == string@,
            final(self).accounts_view() == old(self).accounts_view(),
            final(self).tags_view() == old(self).tags_view(),
    {
        let r = self.assets.get_id(string);
        proof {
            if old(self).wf() {
                lemma_interned_keeps_prefix(
                    old(self).assets_view(),
                    string@,
                    builtin_asset_names().len() as int,
                );
            }
        }
        r
    }

    /// The name of an asset id, or "unnamed" for an id never handed out.
    pub fn asset_name(&self, id: usize) -> (r: String)
        requires
            self.spaces_wf(),
        ensures
            r@ == if id < self.assets_view().len() {
                self.assets_view()[id as int]
            } else {
                "unnamed"@
            },
    {
        self.assets.name(id)
    }

    /// The id of a tag name, allocating the next one when it is new.
    pub fn tag_id(&mut self, string: String) -> (r: usize)
        requires
            old(self).spaces_wf(),
        ensures
            final(self).spaces_wf(),
            old(self).wf() ==> final(self).wf(),
            final(self).tags_view() == interned(old(self).tags_view(), string@),
            r < final(self).tags_view().len(),
            final(self).tags_view()[r as int] == string@,
            final(self).accounts_view() == old(self).accounts_view(),
            final(self).assets_view() == old(self).assets_view(),
    {
        self.tags.get_id(string)
    }

    /// The number of account ids handed out so far.
    pub fn next_account_id(&self) -> (r: usize)
        requires
            self.spaces_wf(),
        ensures
            r == self.accounts_view().len(),
    {
        self.accounts.len()
    }

    /// The number of asset ids handed out so far.
    pub fn next_asset_id(&self) -> (r: usize)
        requires
            self.spaces_wf(),
        ensures
            r == self.assets_view().len(),
    {
        self.assets.len()
    }
}

/// A name with its balance.
pub type NamedBalance = (String, i64);

/// The name shown for entry `id` of `names`.
pub open spec fn shown_name(names: Seq<Seq<char>>, id: int) -> Seq<char> {
    if 0 <= id < names.len() {
        names[id]
    } else {
        "unnamed"@
    }
}

/// Each balance of `bs` with the name of the account at its position.
pub fn into_named_accounts(bs: &[i64], nb: &NameBank) -> (r: Vec<NamedBalance>)
    requires
        nb.spaces_wf(),
    ensures
        r@.len() == bs@.len(),
        forall|i: int|
            0 <= i < r@.len() ==> (#[trigger] r@[i]).0@ == shown_name(nb.accounts_view(), i)
                && r@[i].1 == bs@[i],
{
    let mut r: Vec<NamedBalance> = Vec::new();
    let mut i: usize = 0;
    while i < bs.len()
        invariant
            i <= bs@.len(),
            nb.spaces_wf(),
            r@.len() == i,
            forall|j: int|
                0 <= j < i ==> (#[trigger] r@[j]).0@ == shown_name(nb.accounts_view(), j)
                    && r@[j].1 == bs@[j],
        decreases bs.len() - i,
    {
        r.push((nb.account_name(i), bs[i]));
        i += 1;
    }
    r
}

/// Each amount of `bs` with the name of the asset at its position.
pub fn into_named_assets(bs: &[i64], nb: &NameBank) -> (r: Vec<NamedBalance>)
    requires
        nb.spaces_wf(),
    ensures
        r@.len() == bs@.len(),
        forall|i: int|
            0 <= i < r@.len() ==> (#[trigger] r@[i]).0@ == shown_name(nb.assets_view(), i)
                && r@[i].1 == bs@[i],
{
    let mut r: Vec<NamedBalance> = Vec::new();
    let mut i: usize = 0;
    while i < bs.len()
        invariant
            i <= bs@.len(),
            nb.spaces_wf(),
            r@.len() == i,
            forall|j: int|
                0 <= j < i ==> (#[trigger] r@[j]).0@ == shown_name(nb.assets_view(), j)
                    && r@[j].1 == bs@[j],
        decreases bs.len() - i,
    {
        r.push((nb.asset_name(i), bs[i]));
        i += 1;
    }
    r
}

} // verus!
