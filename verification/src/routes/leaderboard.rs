//! The leaderboard: the points of every account whose sheet is in the spreadsheet.
use vstd::prelude::*;
use vstd::utf8::encode_utf8;
use crate::account::{Account, account_sheet};
use crate::text::{
    drop_eight_bytes, drop_last_eight_bytes, ends_with_account_suffix, has_account_suffix,
    lemma_drop_account_suffix, lemma_split_account_suffix,
};

verus! {

/// One line of the leaderboard.
pub struct LeaderboardEntry {
    pub points: i32,
    pub username: String,
}

pub struct LeaderboardEntryView {
    pub points: i32,
    pub username: Seq<char>,
}

impl View for LeaderboardEntry {
    type V = LeaderboardEntryView;

    open spec fn view(&self) -> LeaderboardEntryView {
        LeaderboardEntryView { points: self.points, username: self.username@ }
    }
}

/// The names of the accounts among sheet titles: each title that ends with
/// `_ACCOUNT`, without that ending, in the order of the titles.
pub open spec fn account_names(titles: Seq<Seq<char>>) -> Seq<Seq<char>>
    decreases titles.len(),
{
    if titles.len() == 0 {
        Seq::empty()
    } else {
        let rest = account_names(titles.drop_last());
        if has_account_suffix(titles.last()) {
            rest.push(drop_eight_bytes(titles.last()))
        } else {
            rest
        }
    }
}

/// The names of the accounts among the titles of a spreadsheet's sheets.
pub fn account_names_from_titles(titles: &Vec<String>) -> (r: Vec<String>)
    requires
        forall|i: int| 0 <= i < titles@.len() ==> encode_utf8((#[trigger] titles@[i])@).len() <= usize::MAX,
    ensures
        r.deep_view() == account_names(titles.deep_view()),
{
    let ghost all = titles.deep_view();
    let mut r: Vec<String> = Vec::new();
    let mut i: usize = 0;
    while i < titles.len()
        invariant
            all == titles.deep_view(),
            i <= all.len(),
            forall|k: int| 0 <= k < titles@.len() ==> encode_utf8((#[trigger] titles@[k])@).len() <= usize::MAX,
            r.deep_view() == account_names(all.take(i as int)),
        decreases all.len() - i,
    {
        let title = &titles[i];
        let ghost before = r.deep_view();
        assert(all.take(i + 1).drop_last() =~= all.take(i as int));
        assert(all.take(i + 1).last() == title@);
        if ends_with_account_suffix(title.as_str()) {
            proof {
                lemma_split_account_suffix(title@);
                lemma_drop_account_suffix(title@.subrange(0, title@.len() - 8));
            }
            let name = drop_last_eight_bytes(title.as_str());
            r.push(name);
            assert(r.deep_view() =~= before.push(drop_eight_bytes(title@)));
        }
        i = i + 1;
    }
    assert(all.take(i as int) =~= all);
    r
}

/// Every name found among the titles is that of an account whose sheet is
/// one of the titles: `name_ACCOUNT` is a title.
pub proof fn law_leaderboard_names_are_account_sheets(titles: Seq<Seq<char>>)
    ensures
        forall|k: int|
            0 <= k < account_names(titles).len() ==> titles.contains(
                account_sheet(#[trigger] account_names(titles)[k]),
            ),
    decreases titles.len(),
{
    if titles.len() > 0 {
        let rest = titles.drop_last();
        law_leaderboard_names_are_account_sheets(rest);
        let names = account_names(titles);
        assert forall|k: int| 0 <= k < names.len() implies titles.contains(account_sheet(#[trigger] names[k])) by {
            if k < account_names(rest).len() {
                assert(names[k] == account_names(rest)[k]);
                let j = choose|j: int| 0 <= j < rest.len() && rest[j] == account_sheet(account_names(rest)[k]);
                assert(titles[j] == rest[j]);
            } else {
                let t = titles.last();
                lemma_split_account_suffix(t);
                lemma_drop_account_suffix(t.subrange(0, t.len() - 8));
                assert(titles[titles.len() - 1] == t);
            }
        }
    }
}

/// The leaderboard names every account among the titles, and nothing
/// else: the names are those of the titles ending with `_ACCOUNT`, in their
/// order, each without its last eight bytes.
pub proof fn law_leaderboard_names_every_account_sheet(titles: Seq<Seq<char>>)
    ensures
        account_names(titles) == titles.filter(|t: Seq<char>| has_account_suffix(t)).map_values(
            |t: Seq<char>| drop_eight_bytes(t),
        ),
    decreases titles.len(),
{
    reveal(Seq::filter);
    if titles.len() > 0 {
        law_leaderboard_names_every_account_sheet(titles.drop_last());
        let f = titles.filter(|t: Seq<char>| has_account_suffix(t));
        let g = titles.drop_last().filter(|t: Seq<char>| has_account_suffix(t));
        if has_account_suffix(titles.last()) {
            assert(f == g.push(titles.last()));
            assert(f.map_values(|t: Seq<char>| drop_eight_bytes(t)) =~= g.map_values(
                |t: Seq<char>| drop_eight_bytes(t),
            ).push(drop_eight_bytes(titles.last())));
        } else {
            assert(f == g);
        }
    } else {
        assert(titles.filter(|t: Seq<char>| has_account_suffix(t)) =~= Seq::<Seq<char>>::empty());
    }
}

/// Each title that ends with `_ACCOUNT` puts on the leaderboard the name it
/// ends with: `name_ACCOUNT` gives `name`.
pub proof fn law_leaderboard_includes_each_account_sheet(titles: Seq<Seq<char>>, j: int)
    requires
        0 <= j < titles.len(),
        has_account_suffix(titles[j]),
    ensures
        account_names(titles).contains(titles[j].subrange(0, titles[j].len() - 8)),
    decreases titles.len(),
{
    let t = titles[j];
    lemma_split_account_suffix(t);
    lemma_drop_account_suffix(t.subrange(0, t.len() - 8));
    if j == titles.len() - 1 {
        let names = account_names(titles);
        assert(names.last() == drop_eight_bytes(t));
    } else {
        law_leaderboard_includes_each_account_sheet(titles.drop_last(), j);
        let rest = account_names(titles.drop_last());
        let k = choose|k: int| 0 <= k < rest.len() && rest[k] == t.subrange(0, t.len() - 8);
        assert(account_names(titles)[k] == rest[k]);
    }
}

/// One line per account, in order: its points and its owner's name.
pub fn leaderboard_entries(accounts: &Vec<Account>) -> (r: Vec<LeaderboardEntry>)
    ensures
        r@.len() == accounts@.len(),
        forall|k: int|
            0 <= k < r@.len() ==> (#[trigger] r@[k])@ == (LeaderboardEntryView {
                points: accounts@[k].points,
                username: accounts@[k].name@,
            }),
{
    let mut r: Vec<LeaderboardEntry> = Vec::new();
    let mut i: usize = 0;
    while i < accounts.len()
        invariant
            i <= accounts@.len(),
            r@.len() == i,
            forall|k: int|
                0 <= k < i ==> (#[trigger] r@[k])@ == (LeaderboardEntryView {
                    points: accounts@[k].points,
                    username: accounts@[k].name@,
                }),
        decreases accounts@.len() - i,
    {
        let acc = &accounts[i];
        r.push(LeaderboardEntry { points: acc.points, username: acc.name.clone() });
        i = i + 1;
    }
    r
}

} // verus!
