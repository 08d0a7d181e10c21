use vstd::prelude::*;

use crate::ace::text::{split_seq, split_text, trim_seq, trim_text};
use crate::templates::misc::NewsCard;

verus! {

/// A step of the breadcrumb trail: its label and where it leads.
#[derive(Debug)]
pub struct Crumb {
    pub name: String,
    pub url: String,
}

/// The user shown in the page header.
#[derive(Debug)]
pub struct User {
    pub name: String,
    pub avatar_url: String,
}

/// What every page is rendered with.
#[derive(Debug)]
pub struct PageContext {
    pub user: Option<User>,
    pub crumbs: Vec<Crumb>,
}

/// The front page.
#[derive(Debug)]
pub struct MainPage {
    pub ctx: PageContext,
    pub news_cards: Vec<NewsCard>,
}

/// The crumbs for the path segments `pieces`: one for each segment that is not empty,
/// labelled with it and leading to the path up to and including it.
pub open spec fn spec_path_crumbs(pieces: Seq<Seq<char>>) -> Seq<(Seq<char>, Seq<char>)>
    decreases pieces.len(),
{
    if pieces.len() == 0 {
        Seq::empty()
    } else {
        let prev = spec_path_crumbs(pieces.drop_last());
        let v = pieces.last();
        if v.len() == 0 {
            prev
        } else {
            let base = if prev.len() == 0 { Seq::empty() } else { prev.last().1 };
            prev.push((v, base + seq!['/'] + v))
        }
    }
}

/// The breadcrumb trail for `url`: home first, then a crumb for each segment of the path.
pub open spec fn spec_crumbs(url: Seq<char>) -> Seq<(Seq<char>, Seq<char>)> {
    seq![("home"@, "/"@)] + spec_path_crumbs(split_seq(trim_seq(url), '/'))
}

/// The labels and targets of crumbs.
pub open spec fn crumbs_view(c: Seq<Crumb>) -> Seq<(Seq<char>, Seq<char>)> {
    c.map_values(|x: Crumb| (x.name@, x.url@))
}

impl PageContext {
    /// The context of the page at `url`, shown to `user`.
    pub fn new(url: &str, user: Option<User>) -> (r: PageContext)
        ensures
            crumbs_view(r.crumbs@) == spec_crumbs(url@),
            r.user == user,
    {
        let mut crumbs: Vec<Crumb> = Vec::new();
        crumbs.push(Crumb { name: String::from_str("home"), url: String::from_str("/") });
        let pieces = split_text(trim_text(url), '/');
        let ghost pv = pieces@.map_values(|p: String| p@);
        let mut s = String::new();
        let mut i: usize = 0;
        assert(pv.take(0) =~= Seq::<Seq<char>>::empty());
        assert(crumbs_view(crumbs@) =~= seq![("home"@, "/"@)] + spec_path_crumbs(pv.take(0)));
        while i < pieces.len()
            invariant
                i <= pieces@.len(),
                pv == pieces@.map_values(|p: String| p@),
                crumbs_view(crumbs@) == seq![("home"@, "/"@)] + spec_path_crumbs(pv.take(i as int)),
                s@ == (if spec_path_crumbs(pv.take(i as int)).len() == 0 {
                    Seq::<char>::empty()
                } else {
                    spec_path_crumbs(pv.take(i as int)).last().1
                }),
            decreases pieces@.len() - i,
        {
            let v = &pieces[i];
            assert(pv.take(i + 1).drop_last() =~= pv.take(i as int));
            assert(pv.take(i + 1).last() == v@);
            let ghost before = spec_path_crumbs(pv.take(i as int));
            if v.unicode_len() > 0 {
                let ghost s0 = s@;
                s.append("/");
                s.append(v.as_str());
                let ghost prev = crumbs_view(crumbs@);
                crumbs.push(Crumb { name: v.clone(), url: s.clone() });
                proof {
                    reveal_strlit("/");
                    assert(s@ =~= s0 + seq!['/'] + v@);
                    assert(crumbs_view(crumbs@) =~= prev.push((v@, s@)));
                    assert(spec_path_crumbs(pv.take(i + 1)) == before.push((v@, s@)));
                    assert(crumbs_view(crumbs@) =~= seq![("home"@, "/"@)] + before.push((v@, s@)));
                }
            } else {
                assert(spec_path_crumbs(pv.take(i + 1)) == before);
            }
            i = i + 1;
        }
        assert(pv.take(pieces@.len() as int) =~= pv);
        PageContext { user, crumbs }
    }
}

} // verus!
