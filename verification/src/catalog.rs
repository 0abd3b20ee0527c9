//! Choosing from the models that a server lists: which of them a query
//! keeps, in which order, and how many.

use crate::models::ModelInfo;
use crate::text::{
    chars_of, comes_before, contains, find, lemma_text_less_asymmetric,
    lemma_text_order_transitive, lowercase_of, split_at_char, split_on, text_less, to_lowercase,
    trim, trimmed,
};
use crate::json::str_eq;
use vstd::prelude::*;

verus! {

/// What the models are ordered by.
#[derive(Debug, Clone, Copy, PartialEq, Eq)]
pub enum SortKey {
    /// By the number of downloads.
    Downloads,
    /// By author; a model without a known author comes before all others.
    Author,
    /// By the time of creation, as text.
    Created,
    /// Not at all: the models stay as they are listed.
    Unsorted,
}

/// What is asked of a list of models.
#[derive(Debug, Clone)]
pub struct ModelQuery {
    /// Text that the id of a model has to hold.
    pub search: Option<String>,
    /// Text that the author of a model has to hold.
    pub author: Option<String>,
    /// Tags, separated by commas, of which a model has to have one.
    pub tags: Option<String>,
    /// Text that the pipeline of a model has to hold.
    pub pipeline: Option<String>,
    /// What the models are ordered by.
    pub sort: SortKey,
    /// Whether the least comes first.
    pub ascending: bool,
    /// How many models are kept at most.
    pub limit: u32,
}

/// Whether `hay` holds `needle`, letter case aside.
pub open spec fn mentions(hay: Seq<char>, needle: Seq<char>) -> bool {
    contains(lowercase_of(hay), lowercase_of(needle))
}

/// Whether `value` is known and holds `needle`, letter case aside.
pub open spec fn known_and_mentions(value: Option<String>, needle: Seq<char>) -> bool {
    match value {
        Some(v) => mentions(v@, needle),
        None => false,
    }
}

/// Whether one of `tags` holds `wanted`, letter case aside.
pub open spec fn some_tag_mentions(tags: Seq<String>, wanted: Seq<char>) -> bool {
    exists|j: int| 0 <= j < tags.len() && mentions(#[trigger] tags[j]@, wanted)
}

/// Whether one of `tags` holds one of the pieces of `wanted` between
/// commas, each taken without the white space around it.
pub open spec fn has_wanted_tag(tags: Seq<String>, wanted: Seq<char>) -> bool {
    exists|i: int|
        0 <= i < split_on(wanted, ',').len() && some_tag_mentions(
            tags,
            trim(#[trigger] split_on(wanted, ',')[i]),
        )
}

/// Whether `query` keeps `model`: the model meets each condition that the
/// query makes.
pub open spec fn keeps(query: ModelQuery, model: ModelInfo) -> bool {
    &&& query.search matches Some(s) ==> mentions(model.id@, s@)
    &&& query.author matches Some(a) ==> known_and_mentions(model.author, a@)
    &&& query.tags matches Some(t) ==> has_wanted_tag(model.tags@, t@)
    &&& query.pipeline matches Some(p) ==> known_and_mentions(model.pipeline_tag, p@)
}

/// The models of `models` that `query` keeps, in their order.
pub open spec fn kept(query: ModelQuery, models: Seq<ModelInfo>) -> Seq<ModelInfo>
    decreases models.len(),
{
    if models.len() == 0 {
        Seq::empty()
    } else if keeps(query, models.last()) {
        kept(query, models.drop_last()).push(models.last())
    } else {
        kept(query, models.drop_last())
    }
}

/// Whether an author `a` comes before an author `b`: an unknown author
/// before every known one, known ones in the order of strings.
pub open spec fn author_less(a: Option<String>, b: Option<String>) -> bool {
    match (a, b) {
        (None, Some(_)) => true,
        (Some(x), Some(y)) => text_less(x@, y@),
        _ => false,
    }
}

/// Whether `a` is less than `b` by `key`.
pub open spec fn key_less(key: SortKey, a: ModelInfo, b: ModelInfo) -> bool {
    match key {
        SortKey::Downloads => a.downloads < b.downloads,
        SortKey::Author => author_less(a.author, b.author),
        SortKey::Created => text_less(a.created_at@, b.created_at@),
        SortKey::Unsorted => false,
    }
}

/// Whether `a` has to stand before `b`: it is less by `key` where the least
/// comes first, greater where the greatest does.
pub open spec fn stands_before(key: SortKey, ascending: bool, a: ModelInfo, b: ModelInfo) -> bool {
    if ascending {
        key_less(key, a, b)
    } else {
        key_less(key, b, a)
    }
}

/// Whether `out` is `input` in order: `out[i]` is `input[from[i]]`, every
/// model of `input` stands in `out` once, no model stands behind one that it
/// has to stand before, and models of which neither has to stand before
/// the other stay in the order of `input`.
pub open spec fn is_ordering(
    key: SortKey,
    ascending: bool,
    input: Seq<ModelInfo>,
    out: Seq<ModelInfo>,
    from: Seq<int>,
) -> bool {
    &&& out.len() == input.len()
    &&& from.len() == input.len()
    &&& forall|i: int|
        0 <= i < from.len() ==> 0 <= #[trigger] from[i] < input.len() && out[i] == input[from[i]]
    &&& forall|i: int, j: int| 0 <= i < j < from.len() ==> from[i] != from[j]
    &&& forall|i: int, j: int|
        0 <= i < j < out.len() ==> !stands_before(
            key,
            ascending,
            #[trigger] out[j],
            #[trigger] out[i],
        )
            && (!stands_before(key, ascending, out[i], out[j]) ==> from[i] < from[j])
}

/// Whether `out` is `input` ordered by `key`, with ties left as they were.
pub open spec fn is_sorted_from(
    key: SortKey,
    ascending: bool,
    input: Seq<ModelInfo>,
    out: Seq<ModelInfo>,
) -> bool {
    exists|from: Seq<int>| is_ordering(key, ascending, input, out, from)
}

/// What `query` makes of `models`: those that it keeps, ordered, and of
/// these the first `limit`.
pub open spec fn is_selection(
    query: ModelQuery,
    models: Seq<ModelInfo>,
    out: Seq<ModelInfo>,
) -> bool {
    exists|sorted: Seq<ModelInfo>|
        #![trigger is_sorted_from(query.sort, query.ascending, kept(query, models), sorted)]
        is_sorted_from(query.sort, query.ascending, kept(query, models), sorted) && out
            == sorted.take(
            if query.limit <= sorted.len() {
                query.limit as int
            } else {
                sorted.len() as int
            },
        )
}

/// Of two models at most one has to stand before the other.
pub proof fn lemma_order_asymmetric(key: SortKey, ascending: bool, a: ModelInfo, b: ModelInfo)
    ensures
        !(stands_before(key, ascending, a, b) && stands_before(key, ascending, b, a)),
{
    match key {
        SortKey::Author => {
            if let (Some(x), Some(y)) = (a.author, b.author) {
                lemma_text_less_asymmetric(x@, y@);
            }
        },
        SortKey::Created => {
            lemma_text_less_asymmetric(a.created_at@, b.created_at@);
        },
        _ => {},
    }
}

/// Where `a` need not stand before `b`, nor `b` before `c`, `a` need not
/// stand before `c`.
pub proof fn lemma_order_transitive(
    key: SortKey,
    ascending: bool,
    a: ModelInfo,
    b: ModelInfo,
    c: ModelInfo,
)
    requires
        !stands_before(key, ascending, a, b),
        !stands_before(key, ascending, b, c),
    ensures
        !stands_before(key, ascending, a, c),
{
    match key {
        SortKey::Author => {
            if let (Some(x), Some(y), Some(z)) = (a.author, b.author, c.author) {
                if ascending {
                    lemma_text_order_transitive(x@, y@, z@);
                } else {
                    lemma_text_order_transitive(z@, y@, x@);
                }
            }
        },
        SortKey::Created => {
            if ascending {
                lemma_text_order_transitive(a.created_at@, b.created_at@, c.created_at@);
            } else {
                lemma_text_order_transitive(c.created_at@, b.created_at@, a.created_at@);
            }
        },
        _ => {},
    }
}

impl SortKey {
    /// The key that `name` stands for: `downloads`, `author` or `created`;
    /// by any other name the models are not ordered.
    pub fn from_name(name: &str) -> (key: SortKey)
        ensures
            key == if name@ == "downloads"@ {
                SortKey::Downloads
            } else if name@ == "author"@ {
                SortKey::Author
            } else if name@ == "created"@ {
                SortKey::Created
            } else {
                SortKey::Unsorted
            },
    {
        if str_eq(name, "downloads") {
            SortKey::Downloads
        } else if str_eq(name, "author") {
            SortKey::Author
        } else if str_eq(name, "created") {
            SortKey::Created
        } else {
            SortKey::Unsorted
        }
    }
}

/// Whether `hay` holds `needle`, letter case aside.
pub fn text_mentions(hay: &str, needle: &str) -> (r: bool)
    ensures
        r == mentions(hay@, needle@),
{
    let h = chars_of(to_lowercase(hay).as_str());
    let n = chars_of(to_lowercase(needle).as_str());
    find(&h, &n).is_some()
}

/// Whether `value` is known and holds `needle`, letter case aside.
fn option_mentions(value: &Option<String>, needle: &str) -> (r: bool)
    ensures
        r == known_and_mentions(*value, needle@),
{
    match value {
        Some(v) => text_mentions(v.as_str(), needle),
        None => false,
    }
}

/// Whether one of `tags` holds `wanted`, letter case aside.
fn tags_mention(tags: &Vec<String>, wanted: &str) -> (r: bool)
    ensures
        r == some_tag_mentions(tags@, wanted@),
{
    let mut j: usize = 0;
    while j < tags.len()
        invariant
            j <= tags.len(),
            forall|k: int| 0 <= k < j ==> !mentions(#[trigger] tags@[k]@, wanted@),
        decreases tags.len() - j,
    {
        if text_mentions(tags[j].as_str(), wanted) {
            return true;
        }
        j += 1;
    }
    false
}

/// Whether one of `tags` holds one of the tags that `wanted` lists.
fn tags_match(tags: &Vec<String>, wanted: &str) -> (r: bool)
    ensures
        r == has_wanted_tag(tags@, wanted@),
{
    let w = chars_of(wanted);
    let pieces = split_at_char(&w, ',');
    let ghost ps = split_on(wanted@, ',');
    let mut i: usize = 0;
    while i < pieces.len()
        invariant
            i <= pieces.len(),
            ps == split_on(wanted@, ','),
            pieces.len() == ps.len(),
            forall|k: int| 0 <= k < pieces.len() ==> (#[trigger] pieces[k])@ == ps[k],
            forall|k: int| 0 <= k < i ==> !some_tag_mentions(tags@, trim(#[trigger] ps[k])),
        decreases pieces.len() - i,
    {
        let piece = crate::text::string_of(&trimmed(&pieces[i]));
        if tags_mention(tags, piece.as_str()) {
            assert(some_tag_mentions(tags@, trim(ps[i as int])));
            return true;
        }
        i += 1;
    }
    false
}

/// Whether `query` keeps `model`.
pub fn query_keeps(query: &ModelQuery, model: &ModelInfo) -> (r: bool)
    ensures
        r == keeps(*query, *model),
{
    let by_search = match &query.search {
        Some(s) => text_mentions(model.id.as_str(), s.as_str()),
        None => true,
    };
    let by_author = match &query.author {
        Some(a) => option_mentions(&model.author, a.as_str()),
        None => true,
    };
    let by_tags = match &query.tags {
        Some(t) => tags_match(&model.tags, t.as_str()),
        None => true,
    };
    let by_pipeline = match &query.pipeline {
        Some(p) => option_mentions(&model.pipeline_tag, p.as_str()),
        None => true,
    };
    by_search && by_author && by_tags && by_pipeline
}

/// The models of `models` that `query` keeps, in their order.
pub fn filter_models(query: &ModelQuery, models: Vec<ModelInfo>) -> (out: Vec<ModelInfo>)
    ensures
        out@ == kept(*query, models@),
{
    let ghost all = models@;
    let mut out: Vec<ModelInfo> = Vec::new();
    for model in it: models
        invariant
            it.seq() == all,
            out@ == kept(*query, all.take(it.index() as int)),
    {
        proof {
            let next = all.take(it.index() + 1);
            assert(next.drop_last() =~= all.take(it.index() as int));
            assert(next.last() == model);
        }
        if query_keeps(query, &model) {
            out.push(model);
        }
    }
    proof {
        assert(all.take(all.len() as int) =~= all);
    }
    out
}

/// Whether `a` has to stand before `b`.
pub fn precedes(key: SortKey, ascending: bool, a: &ModelInfo, b: &ModelInfo) -> (r: bool)
    ensures
        r == stands_before(key, ascending, *a, *b),
{
    let (x, y) = if ascending {
        (a, b)
    } else {
        (b, a)
    };
    match key {
        SortKey::Downloads => x.downloads < y.downloads,
        SortKey::Author => match (&x.author, &y.author) {
            (None, Some(_)) => true,
            (Some(p), Some(q)) => comes_before(p.as_str(), q.as_str()),
            _ => false,
        },
        SortKey::Created => comes_before(x.created_at.as_str(), y.created_at.as_str()),
        SortKey::Unsorted => false,
    }
}

/// Orders `models` by `key`, the least first or the greatest first. Models
/// that are equal by the key stay in the order in which they were.
pub fn sort_models(key: SortKey, ascending: bool, models: Vec<ModelInfo>) -> (out: Vec<ModelInfo>)
    ensures
        is_sorted_from(key, ascending, models@, out@),
{
    let ghost all = models@;
    let ghost mut from: Seq<int> = Seq::empty();
    let mut out: Vec<ModelInfo> = Vec::new();
    for model in it: models
        invariant
            it.seq() == all,
            out.len() == it.index(),
            from.len() == it.index(),
            forall|i: int|
                0 <= i < from.len() ==> 0 <= #[trigger] from[i] < it.index() && out@[i]
                    == all[from[i]],
            forall|i: int, j: int| 0 <= i < j < from.len() ==> from[i] != from[j],
            forall|i: int, j: int|
                0 <= i < j < out.len() ==> !stands_before(
                    key,
                    ascending,
                    #[trigger] out@[j],
                    #[trigger] out@[i],
                ) && (!stands_before(key, ascending, out@[i], out@[j]) ==> from[i] < from[j]),
    {
        let ghost k = it.index() as int;
        let ghost before = out@;
        let ghost before_from = from;
        let mut at: usize = out.len();
        while at > 0 && precedes(key, ascending, &model, &out[at - 1])
            invariant
                at <= out.len(),
                out@ == before,
                forall|i: int|
                    at <= i < out.len() ==> stands_before(
                        key,
                        ascending,
                        model,
                        #[trigger] out@[i],
                    ),
            decreases at,
        {
            at -= 1;
        }
        out.insert(at, model);
        proof {
            from = before_from.insert(at as int, k);
            assert forall|i: int| 0 <= i < from.len() implies 0 <= #[trigger] from[i] < k + 1
                && out@[i] == all[from[i]] by {
                if i < at {
                    assert(from[i] == before_from[i]);
                } else if i > at {
                    assert(from[i] == before_from[i - 1]);
                    assert(out@[i] == before[i - 1]);
                }
            }
            assert forall|i: int, j: int| 0 <= i < j < from.len() implies from[i] != from[j] by {
                let pi = if i < at { i } else { i - 1 };
                let pj = if j < at { j } else { j - 1 };
                if i != at && j != at {
                    assert(from[i] == before_from[pi]);
                    assert(from[j] == before_from[pj]);
                } else if i == at {
                    assert(from[j] == before_from[pj]);
                } else {
                    assert(from[i] == before_from[pi]);
                }
            }
            assert forall|i: int, j: int| 0 <= i < j < out.len() implies !stands_before(
                key,
                ascending,
                #[trigger] out@[j],
                #[trigger] out@[i],
            ) && (!stands_before(key, ascending, out@[i], out@[j]) ==> from[i] < from[j]) by {
                let pi = if i < at { i } else { i - 1 };
                let pj = if j < at { j } else { j - 1 };
                if i != at && j != at {
                    assert(out@[i] == before[pi]);
                    assert(out@[j] == before[pj]);
                    assert(from[i] == before_from[pi]);
                    assert(from[j] == before_from[pj]);
                } else if j == at {
                    assert(out@[i] == before[i]);
                    assert(from[i] == before_from[i]);
                    assert(!stands_before(key, ascending, model, before[at - 1]));
                    if i < at - 1 {
                        assert(!stands_before(key, ascending, before[at - 1], before[i]));
                        lemma_order_transitive(key, ascending, model, before[at - 1], before[i]);
                    }
                } else {
                    assert(out@[j] == before[j - 1]);
                    assert(stands_before(key, ascending, model, before[j - 1]));
                    lemma_order_asymmetric(key, ascending, model, before[j - 1]);
                }
            }
        }
    }
    proof {
        assert(is_ordering(key, ascending, all, out@, from));
    }
    out
}

/// What `query` makes of `models`: those that it keeps, ordered as it asks,
/// and of these the first `limit`.
pub fn select_models(query: &ModelQuery, models: Vec<ModelInfo>) -> (out: Vec<ModelInfo>)
    ensures
        is_selection(*query, models@, out@),
{
    let chosen = filter_models(query, models);
    let mut sorted = sort_models(query.sort, query.ascending, chosen);
    let ghost whole = sorted@;
    let limit = query.limit as usize;
    if limit < sorted.len() {
        sorted.truncate(limit);
    }
    proof {
        assert(sorted@ =~= whole.take(
            if query.limit <= whole.len() {
                query.limit as int
            } else {
                whole.len() as int
            },
        ));
        assert(is_sorted_from(query.sort, query.ascending, kept(*query, models@), whole));
    }
    sorted
}

} // verus!
