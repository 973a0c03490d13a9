//! Which entries of a configuration archive are unpacked, and where.

use crate::common::{Country, Options};
use crate::paths::{join, joined, lemma_joined_below};
use crate::text::{
    chars_of, contains, find_first, lemma_run_len_unique, names_of, occurs_in, prefix_len, run_len,
    same, split, split_on,
};
use vstd::prelude::*;

verus! {

/// One entry of the archive to unpack.
#[derive(Debug, PartialEq, Eq)]
pub struct Extraction {
    /// The position of the entry in the archive.
    pub index: usize,
    /// The path the entry is written to.
    pub target: String,
}

/// An `Extraction` as plain values.
pub struct ExtractionView {
    pub index: int,
    pub target: Seq<char>,
}

impl View for Extraction {
    type V = ExtractionView;

    open spec fn view(&self) -> ExtractionView {
        ExtractionView { index: self.index as int, target: self.target@ }
    }
}

/// The extractions of `plan` as plain values, in order.
pub open spec fn plan_view(plan: Seq<Extraction>) -> Seq<ExtractionView> {
    Seq::new(plan.len(), |i: int| plan[i]@)
}

/// The name of an entry without its top-level folder: what follows the
/// first `/` and the `/`s that stand directly behind it. Nothing is left of
/// a name that holds no `/`.
pub open spec fn without_top_level(name: Seq<char>) -> Seq<char> {
    let rest = name.skip(prefix_len(name, '/') as int);
    rest.skip(run_len(rest, '/') as int)
}

/// Whether the entry `name` is wanted for `country`: its name holds the
/// token of the country somewhere, or the country has no token.
pub open spec fn selected(name: Seq<char>, country: Country) -> bool {
    match country.token() {
        Some(token) => occurs_in(name, token),
        None => true,
    }
}

/// Whether a file written at `rest` below a folder lies inside that folder:
/// `rest` is not empty, does not start at the root, and none of its
/// components is `..`.
pub open spec fn stays_inside(rest: Seq<char>) -> bool {
    &&& rest.len() > 0
    &&& rest[0] != '/'
    &&& !split_on(rest, '/').contains(seq!['.', '.'])
}

/// Whether the entry `name` is unpacked: it is wanted for the country of
/// `opt`, and what is left of its name without the top-level folder stays
/// inside the base folder. An entry that is wanted but would be written
/// nowhere or outside the base folder is passed over, as an entry of
/// another country is.
pub open spec fn unpacked(name: Seq<char>, opt: Options) -> bool {
    selected(name, opt.country) && stays_inside(without_top_level(name))
}

/// Where the entry `name` is written: its name without the top-level
/// folder, joined to the base folder. For every entry that is unpacked this
/// is a path below the base folder.
pub open spec fn target_of(name: Seq<char>, opt: Options) -> Seq<char> {
    joined(opt.base_folder@, without_top_level(name))
}

/// The entries of an archive that are unpacked, in the order of the
/// archive, each with the path it is written to.
pub open spec fn extraction_plan(names: Seq<Seq<char>>, opt: Options) -> Seq<ExtractionView>
    decreases names.len(),
{
    if names.len() == 0 {
        Seq::<ExtractionView>::empty()
    } else {
        let before = extraction_plan(names.drop_last(), opt);
        if unpacked(names.last(), opt) {
            before.push(
                ExtractionView { index: names.len() - 1, target: target_of(names.last(), opt) },
            )
        } else {
            before
        }
    }
}

/// Every planned extraction is an entry of the archive that is unpacked,
/// with the target of that entry; the plan follows the order of the
/// archive; and every entry that is unpacked is planned.
pub proof fn lemma_extraction_plan(names: Seq<Seq<char>>, opt: Options)
    ensures
        forall|k: int|
            0 <= k < extraction_plan(names, opt).len() ==> {
                let e = #[trigger] extraction_plan(names, opt)[k];
                &&& 0 <= e.index < names.len()
                &&& unpacked(names[e.index], opt)
                &&& e.target == target_of(names[e.index], opt)
            },
        forall|k: int, l: int|
            0 <= k < l < extraction_plan(names, opt).len() ==> extraction_plan(names, opt)[k].index
                < extraction_plan(names, opt)[l].index,
        forall|i: int|
            0 <= i < names.len() && unpacked(#[trigger] names[i], opt) ==> exists|k: int|
                0 <= k < extraction_plan(names, opt).len() && extraction_plan(names, opt)[k].index
                    == i,
    decreases names.len(),
{
    if names.len() > 0 {
        let head = names.drop_last();
        let before = extraction_plan(head, opt);
        let plan = extraction_plan(names, opt);
        lemma_extraction_plan(head, opt);
        assert forall|k: int| 0 <= k < plan.len() implies {
            let e = #[trigger] plan[k];
            &&& 0 <= e.index < names.len()
            &&& unpacked(names[e.index], opt)
            &&& e.target == target_of(names[e.index], opt)
        } by {
            if k < before.len() {
                assert(plan[k] == before[k]);
                assert(names[before[k].index] == head[before[k].index]);
            }
        }
        assert forall|k: int, l: int| 0 <= k < l < plan.len() implies plan[k].index
            < plan[l].index by {
            assert(plan[k] == before[k]);
            if l < before.len() {
                assert(plan[l] == before[l]);
            }
        }
        assert forall|i: int|
            0 <= i < names.len() && unpacked(#[trigger] names[i], opt) implies exists|k: int|
            0 <= k < plan.len() && plan[k].index == i by {
            if i < head.len() {
                assert(head[i] == names[i]);
                let k = choose|k: int| 0 <= k < before.len() && before[k].index == i;
                assert(plan[k] == before[k]);
            } else {
                assert(plan[plan.len() - 1].index == i);
            }
        }
    }
}

/// Every planned target lies inside the base folder: it is the base folder
/// followed by a path that is not empty, does not start at the root and
/// has no `..` among its components, with at most one `/` put between the
/// two.
pub proof fn lemma_targets_stay_inside(names: Seq<Seq<char>>, opt: Options, k: int)
    requires
        0 <= k < extraction_plan(names, opt).len(),
    ensures
        exists|rest: Seq<char>|
            {
                &&& #[trigger] stays_inside(rest)
                &&& extraction_plan(names, opt)[k].target == joined(opt.base_folder@, rest)
                &&& (extraction_plan(names, opt)[k].target == opt.base_folder@ + rest
                    || extraction_plan(names, opt)[k].target == opt.base_folder@ + seq!['/']
                    + rest)
            },
{
    lemma_extraction_plan(names, opt);
    let e = extraction_plan(names, opt)[k];
    let rest = without_top_level(names[e.index]);
    lemma_joined_below(opt.base_folder@, rest);
    assert(stays_inside(rest));
}

/// The name of an entry without its top-level folder.
pub fn strip_top_level(name: &str) -> (r: String)
    ensures
        r@ == without_top_level(name@),
{
    let chars = chars_of(name);
    let len: usize = chars.len();
    let slash: usize = match find_first(name, '/') {
        Some(slash) => slash,
        None => len,
    };
    let ghost rest = name@.skip(slash as int);
    let mut i: usize = slash;
    while i < len && chars[i] == '/'
        invariant
            slash <= i <= len,
            len == name@.len(),
            chars@ == name@,
            forall|j: int| slash <= j < i ==> name@[j] == '/',
        decreases len - i,
    {
        i += 1;
    }
    proof {
        lemma_run_len_unique(rest, '/', i - slash);
        assert(rest.skip(i - slash) =~= name@.subrange(i as int, len as int));
    }
    name.substring_char(i, len).to_owned()
}

/// Whether the entry `name` is wanted for `country`.
pub fn is_selected(name: &str, country: &Country) -> (r: bool)
    ensures
        r == selected(name@, *country),
{
    match country.to_str() {
        Some(token) => contains(name, token),
        None => true,
    }
}

/// Whether a file written at `rest` below a folder lies inside that folder.
pub fn is_inside(rest: &str) -> (r: bool)
    ensures
        r == stays_inside(rest@),
{
    if rest.unicode_len() == 0 || rest.get_char(0) == '/' {
        return false;
    }
    let parts = split(rest, '/');
    let ghost pieces = split_on(rest@, '/');
    proof {
        reveal_strlit("..");
        assert(".."@ =~= seq!['.', '.']);
    }
    let mut i: usize = 0;
    while i < parts.len()
        invariant
            i <= parts.len(),
            rest@.len() > 0,
            rest@[0] != '/',
            pieces == split_on(rest@, '/'),
            parts@.len() == pieces.len(),
            forall|k: int| 0 <= k < parts@.len() ==> (#[trigger] parts@[k])@ == pieces[k],
            ".."@ == seq!['.', '.'],
            forall|j: int| 0 <= j < i ==> pieces[j] != seq!['.', '.'],
        decreases parts.len() - i,
    {
        if same(parts[i].as_str(), "..") {
            proof {
                assert(pieces[i as int] == seq!['.', '.']);
                assert(pieces.contains(seq!['.', '.']));
            }
            return false;
        }
        i += 1;
    }
    true
}

/// Plans the unpacking of an archive whose entries have the names
/// `entries`: the entries that are unpacked, in the order of the archive,
/// each with its path below the base folder.
///
/// An entry is unpacked if it is wanted for the country of `opt` and is
/// written inside the base folder. An entry whose name, without the
/// top-level folder, is empty or has `..` among its components is passed
/// over; nothing is planned for it and the plan does not fail.
pub fn handler_ovpn_zip(entries: &Vec<String>, opt: &Options) -> (plan: Vec<Extraction>)
    ensures
        plan_view(plan@) == extraction_plan(names_of(entries@), *opt),
        forall|k: int|
            0 <= k < plan@.len() ==> {
                let e = #[trigger] plan@[k];
                let rest = without_top_level(names_of(entries@)[e.index as int]);
                &&& e.index < entries@.len()
                &&& selected(names_of(entries@)[e.index as int], opt.country)
                &&& stays_inside(rest)
                &&& e.target@ == joined(opt.base_folder@, rest)
                &&& (e.target@ == opt.base_folder@ + rest || e.target@ == opt.base_folder@
                    + seq!['/'] + rest)
            },
{
    let mut plan: Vec<Extraction> = Vec::new();
    let ghost names = names_of(entries@);
    let mut i: usize = 0;
    proof {
        assert(names.take(0) =~= Seq::<Seq<char>>::empty());
        assert(plan_view(plan@) =~= extraction_plan(names.take(0), *opt));
    }
    while i < entries.len()
        invariant
            i <= entries.len(),
            names == names_of(entries@),
            plan_view(plan@) == extraction_plan(names.take(i as int), *opt),
        decreases entries.len() - i,
    {
        let name = entries[i].as_str();
        proof {
            let upto = names.take(i + 1);
            assert(upto.drop_last() =~= names.take(i as int));
            assert(upto.last() == name@);
        }
        if is_selected(name, &opt.country) {
            let stripped = strip_top_level(name);
            if is_inside(stripped.as_str()) {
                let target = join(opt.base_folder, stripped.as_str());
                let ghost before = plan@;
                plan.push(Extraction { index: i, target });
                proof {
                    assert(plan_view(plan@) =~= plan_view(before).push(
                        plan@[before.len() as int]@,
                    ));
                }
            }
        }
        i += 1;
    }
    proof {
        assert(names.take(i as int) =~= names);
        lemma_extraction_plan(names, *opt);
        assert forall|k: int| 0 <= k < plan@.len() implies {
            let e = #[trigger] plan@[k];
            let rest = without_top_level(names[e.index as int]);
            &&& e.index < entries@.len()
            &&& selected(names[e.index as int], opt.country)
            &&& stays_inside(rest)
            &&& e.target@ == joined(opt.base_folder@, rest)
            &&& (e.target@ == opt.base_folder@ + rest || e.target@ == opt.base_folder@
                + seq!['/'] + rest)
        } by {
            let v = extraction_plan(names, *opt)[k];
            assert(plan_view(plan@)[k] == plan@[k]@);
            assert(v.index == plan@[k].index);
            lemma_joined_below(opt.base_folder@, without_top_level(names[v.index]));
        }
    }
    plan
}

} // verus!
