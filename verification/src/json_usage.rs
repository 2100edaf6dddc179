//! The usage parser: validate a generic JSON document against one of several
//! named `usage` schemas and produce a typed usage value.

pub mod item_shop;

use vstd::prelude::*;

use crate::error::Error;
use crate::error::ErrorKind;
use crate::json_value::spec_lookup;
use crate::json_value::JsonValue;
use crate::json_usage::item_shop::ItemShopCategories;
use crate::json_usage::item_shop::ItemShopItems;
use crate::text::str_eq;

verus! {

/// The image of an items table: display name to item identifier.
pub type ItemsV = Seq<(Seq<char>, Seq<char>)>;

/// The image of a categories table: category name to its items.
pub type CategoriesV = Seq<(Seq<char>, ItemsV)>;

/// The image of [`ItemShopItems`].
pub open spec fn items_view(items: Seq<(String, String)>) -> ItemsV {
    items.map_values(|p: (String, String)| (p.0@, p.1@))
}

/// The image of [`ItemShopCategories`].
pub open spec fn cats_view(cats: Seq<(String, ItemShopItems)>) -> CategoriesV {
    cats.map_values(|p: (String, ItemShopItems)| (p.0@, items_view(p.1@)))
}

/// The index of the first entry of `s` keyed `k`, or `-1` if there is none.
pub open spec fn assoc_key_index<V>(s: Seq<(Seq<char>, V)>, k: Seq<char>) -> int
    decreases s.len(),
{
    if s.len() == 0 {
        -1
    } else if s[0].0 == k {
        0
    } else if assoc_key_index(s.drop_first(), k) < 0 {
        -1
    } else {
        assoc_key_index(s.drop_first(), k) + 1
    }
}

/// Write `k -> v` into the association sequence `s` with the ordinary JSON
/// object-key semantics: a later write to an existing key wins, in place;
/// a new key is appended.
pub open spec fn assoc_set<V>(s: Seq<(Seq<char>, V)>, k: Seq<char>, v: V) -> Seq<(Seq<char>, V)> {
    if assoc_key_index(s, k) >= 0 {
        s.update(assoc_key_index(s, k), (k, v))
    } else {
        s.push((k, v))
    }
}

/// If no entry among `0..i` is keyed `k`, the first index keyed `k` in `s`
/// is `i` past the first one in `s.skip(i)`.
proof fn lemma_assoc_key_index_skip<V>(s: Seq<(Seq<char>, V)>, k: Seq<char>, i: int)
    requires
        0 <= i <= s.len(),
        forall|j: int| 0 <= j < i ==> (#[trigger] s[j]).0 != k,
    ensures
        assoc_key_index(s, k) == if assoc_key_index(s.skip(i), k) < 0 {
            -1int
        } else {
            i + assoc_key_index(s.skip(i), k)
        },
    decreases i,
{
    if i == 0 {
        assert(s.skip(0) =~= s);
    } else {
        lemma_assoc_key_index_skip(s, k, i - 1);
        assert(s.skip(i - 1).drop_first() =~= s.skip(i));
        assert(s.skip(i - 1)[0] == s[i - 1]);
    }
}

/// Write one item into an items table, last write winning.
#[verifier::loop_isolation(false)]
fn items_put(items: &mut ItemShopItems, key: String, value: String)
    ensures
        items_view(final(items)@) == assoc_set(items_view(old(items)@), key@, value@),
{
    let ghost iv = items_view(old(items)@);
    let n: usize = items.len();
    let mut idx: usize = 0;
    while idx < n
        invariant
            idx <= n,
            *items == *old(items),
            forall|j: int| 0 <= j < idx ==> (#[trigger] iv[j]).0 != key@,
        decreases n - idx,
    {
        if str_eq(items[idx].0.as_str(), key.as_str()) {
            proof {
                assert(iv[idx as int].0 == items@[idx as int].0@);
                lemma_assoc_key_index_skip(iv, key@, idx as int);
                assert(iv.skip(idx as int)[0] == iv[idx as int]);
                assert(assoc_key_index(iv, key@) == idx as int);
            }
            let _replaced = items.remove(idx);
            items.insert(idx, (key, value));
            proof {
                assert(items@ =~= old(items)@.update(idx as int, (key, value)));
                assert(items_view(items@) =~= iv.update(idx as int, (key@, value@)));
            }
            return;
        }
        proof {
            assert(iv[idx as int].0 == items@[idx as int].0@);
        }
        idx = idx + 1;
    }
    proof {
        lemma_assoc_key_index_skip(iv, key@, n as int);
        assert(iv.skip(n as int).len() == 0);
        assert(assoc_key_index(iv, key@) == -1);
    }
    items.push((key, value));
    proof {
        assert(items_view(items@) =~= iv.push((key@, value@)));
    }
}

/// Write one category into a categories table, last write winning.
#[verifier::loop_isolation(false)]
fn cats_put(cats: &mut ItemShopCategories, key: String, value: ItemShopItems)
    ensures
        cats_view(final(cats)@) == assoc_set(cats_view(old(cats)@), key@, items_view(value@)),
{
    let ghost cv = cats_view(old(cats)@);
    let n: usize = cats.len();
    let mut idx: usize = 0;
    while idx < n
        invariant
            idx <= n,
            *cats == *old(cats),
            forall|j: int| 0 <= j < idx ==> (#[trigger] cv[j]).0 != key@,
        decreases n - idx,
    {
        if str_eq(cats[idx].0.as_str(), key.as_str()) {
            proof {
                assert(cv[idx as int].0 == cats@[idx as int].0@);
                lemma_assoc_key_index_skip(cv, key@, idx as int);
                assert(cv.skip(idx as int)[0] == cv[idx as int]);
                assert(assoc_key_index(cv, key@) == idx as int);
            }
            let _replaced = cats.remove(idx);
            cats.insert(idx, (key, value));
            proof {
                assert(cats@ =~= old(cats)@.update(idx as int, (key, value)));
                assert(cats_view(cats@) =~= cv.update(idx as int, (key@, items_view(value@))));
            }
            return;
        }
        proof {
            assert(cv[idx as int].0 == cats@[idx as int].0@);
        }
        idx = idx + 1;
    }
    proof {
        lemma_assoc_key_index_skip(cv, key@, n as int);
        assert(cv.skip(n as int).len() == 0);
        assert(assoc_key_index(cv, key@) == -1);
    }
    cats.push((key, value));
    proof {
        assert(cats_view(cats@) =~= cv.push((key@, items_view(value@))));
    }
}

// ---------------------------------------------------------------------------
// What the parser returns, for every input.
// ---------------------------------------------------------------------------

/// Parse the members of one category object into its items table, folding
/// over the members from index `j` with the table accumulated so far; the
/// first member whose value is not a string aborts the parse.
pub open spec fn spec_parse_items(
    members: Seq<(String, JsonValue)>,
    j: int,
    acc: ItemsV,
) -> Result<ItemsV, Seq<char>>
    decreases members.len() - j,
{
    if j < 0 || j >= members.len() {
        Ok(acc)
    } else {
        match members[j].1 {
            JsonValue::Text(s) => spec_parse_items(
                members,
                j + 1,
                assoc_set(acc, members[j].0@, s@),
            ),
            _ => Err("all of `items`'s value have to be a string type"@),
        }
    }
}

/// Parse the members of the `categories` object into the categories table,
/// folding from index `i`; the first member whose value is not an object,
/// and the first malformed item inside one, abort the parse.
pub open spec fn spec_parse_cats(
    members: Seq<(String, JsonValue)>,
    i: int,
    acc: CategoriesV,
) -> Result<CategoriesV, Seq<char>>
    decreases members.len() - i,
{
    if i < 0 || i >= members.len() {
        Ok(acc)
    } else {
        match members[i].1 {
            JsonValue::Object(items_members) => match spec_parse_items(
                items_members@,
                0,
                Seq::empty(),
            ) {
                Ok(items) => spec_parse_cats(members, i + 1, assoc_set(acc, members[i].0@, items)),
                Err(m) => Err(m),
            },
            _ => Err("value of `categories` object has to be an object type, called `items`"@),
        }
    }
}

/// The item-shop branch: `command` must be a string, `categories` an object
/// of objects of strings; on success, the command text and the categories
/// table.
pub open spec fn spec_parse_as_item_shop(j: JsonValue) -> Result<
    (Seq<char>, CategoriesV),
    Seq<char>,
> {
    match spec_lookup(j.members(), "command"@) {
        Some(JsonValue::Text(cmd)) => match spec_lookup(j.members(), "categories"@) {
            Some(JsonValue::Object(cat_members)) => match spec_parse_cats(
                cat_members@,
                0,
                Seq::empty(),
            ) {
                Ok(cats) => Ok((cmd@, cats)),
                Err(m) => Err(m),
            },
            _ => Err("`categories` has to be an object type"@),
        },
        _ => Err("`command` have to be a string type"@),
    }
}

/// The dispatch on the `usage` discriminator: `item_shop` selects the
/// item-shop branch; any other value is invalid and reported by name.
pub open spec fn spec_parse_enums(usage: Seq<char>, j: JsonValue) -> Result<
    (Seq<char>, CategoriesV),
    (ErrorKind, Seq<char>),
> {
    if usage == "item_shop"@ {
        match spec_parse_as_item_shop(j) {
            Ok(v) => Ok(v),
            Err(m) => Err((ErrorKind::JsonInvalidType, m)),
        }
    } else {
        Err((ErrorKind::UsageInvalid, usage + " is not a valid usage"@))
    }
}

/// The whole usage parse: the document must be an object carrying a string
/// `usage` member, which selects the schema the rest is validated against.
pub open spec fn spec_parse_serde_value(j: JsonValue) -> Result<
    (Seq<char>, CategoriesV),
    (ErrorKind, Seq<char>),
> {
    if !j.is_object() {
        Err((ErrorKind::JsonInvalidType, "json file has to have object type first"@))
    } else {
        match spec_lookup(j.members(), "usage"@) {
            Some(JsonValue::Text(u)) => spec_parse_enums(u@, j),
            _ => Err((ErrorKind::JsonInvalidType, Seq::empty())),
        }
    }
}

// ---------------------------------------------------------------------------
// The typed usage value and the executable parser.
// ---------------------------------------------------------------------------

/// A typed usage value, one variant per recognized `usage` discriminator.
#[derive(Debug, PartialEq)]
pub enum JsonUsage {
    /// No usage chosen yet (the state of a fresh editor).
    Unspecified,
    /// The `item_shop` usage: a command template and its category tables.
    ItemShop { command: String, categories: ItemShopCategories },
}

impl Default for JsonUsage {
    fn default() -> (r: Self)
        ensures
            r is Unspecified,
    {
        Self::Unspecified
    }
}

impl JsonUsage {
    /// Validate a whole usage document and produce its typed value.
    pub fn parse_serde_value(value: &JsonValue) -> (r: Result<JsonUsage, Error>)
        ensures
            (match spec_parse_serde_value(*value) {
                Ok(p) => r matches Ok(u) && u matches JsonUsage::ItemShop { command, categories }
                    && command@ == p.0 && cats_view(categories@) == p.1,
                Err(e) => r matches Err(err) && err.kind == e.0 && err.msg@ == e.1,
            }),
    {
        let members: &Vec<(String, JsonValue)> = match value {
            JsonValue::Object(m) => m,
            _ => {
                return Err(
                    Error::new(
                        ErrorKind::JsonInvalidType,
                        String::from_str("json file has to have object type first"),
                    ),
                );
            },
        };
        match JsonValue::lookup(members, "usage") {
            Some(JsonValue::Text(u)) => {
                let usage = u.clone();
                Self::parse_enums(usage.as_str(), value)
            },
            _ => Err(Error::new(ErrorKind::JsonInvalidType, String::new())),
        }
    }

    /// Dispatch on an already extracted `usage` discriminator.
    pub fn parse_enums(usage_string: &str, value: &JsonValue) -> (r: Result<JsonUsage, Error>)
        ensures
            (match spec_parse_enums(usage_string@, *value) {
                Ok(p) => r matches Ok(u) && u matches JsonUsage::ItemShop { command, categories }
                    && command@ == p.0 && cats_view(categories@) == p.1,
                Err(e) => r matches Err(err) && err.kind == e.0 && err.msg@ == e.1,
            }),
    {
        if str_eq(usage_string, "item_shop") {
            Self::parse_as_item_shop(value)
        } else {
            let mut m = usage_string.to_owned();
            m.append(" is not a valid usage");
            Err(Error::new(ErrorKind::UsageInvalid, m))
        }
    }

    /// Validate the item-shop branch of a usage document.
    #[verifier::loop_isolation(false)]
    pub fn parse_as_item_shop(value: &JsonValue) -> (r: Result<JsonUsage, Error>)
        ensures
            (match spec_parse_as_item_shop(*value) {
                Ok(p) => r matches Ok(u) && u matches JsonUsage::ItemShop { command, categories }
                    && command@ == p.0 && cats_view(categories@) == p.1,
                Err(m) => r matches Err(err) && err.kind == ErrorKind::JsonInvalidType
                    && err.msg@ == m,
            }),
    {
        let members: &Vec<(String, JsonValue)> = match value {
            JsonValue::Object(m) => m,
            _ => {
                return Err(
                    Error::new(
                        ErrorKind::JsonInvalidType,
                        String::from_str("`command` have to be a string type"),
                    ),
                );
            },
        };
        let command: String = match JsonValue::lookup(members, "command") {
            Some(JsonValue::Text(c)) => c.clone(),
            _ => {
                return Err(
                    Error::new(
                        ErrorKind::JsonInvalidType,
                        String::from_str("`command` have to be a string type"),
                    ),
                );
            },
        };
        let cat_members: &Vec<(String, JsonValue)> = match JsonValue::lookup(
            members,
            "categories",
        ) {
            Some(JsonValue::Object(c)) => c,
            _ => {
                return Err(
                    Error::new(
                        ErrorKind::JsonInvalidType,
                        String::from_str("`categories` has to be an object type"),
                    ),
                );
            },
        };
        let mut categories: ItemShopCategories = Vec::new();
        let n: usize = cat_members.len();
        let mut i: usize = 0;
        proof {
            assert(cats_view(categories@) =~= Seq::<(Seq<char>, ItemsV)>::empty());
        }
        while i < n
            invariant
                i <= n,
                spec_parse_cats(cat_members@, i as int, cats_view(categories@))
                    == spec_parse_cats(cat_members@, 0, Seq::empty()),
            decreases n - i,
        {
            let entry_value: &JsonValue = &cat_members[i].1;
            let items_members: &Vec<(String, JsonValue)> = match entry_value {
                JsonValue::Object(m) => m,
                _ => {
                    return Err(
                        Error::new(
                            ErrorKind::JsonInvalidType,
                            String::from_str(
                                "value of `categories` object has to be an object type, called `items`",
                            ),
                        ),
                    );
                },
            };
            let mut items: ItemShopItems = Vec::new();
            let m: usize = items_members.len();
            let mut j: usize = 0;
            proof {
                assert(items_view(items@) =~= Seq::<(Seq<char>, Seq<char>)>::empty());
            }
            while j < m
                invariant
                    j <= m,
                    spec_parse_items(items_members@, j as int, items_view(items@))
                        == spec_parse_items(items_members@, 0, Seq::empty()),
                decreases m - j,
            {
                let id: String = match &items_members[j].1 {
                    JsonValue::Text(s) => s.clone(),
                    _ => {
                        return Err(
                            Error::new(
                                ErrorKind::JsonInvalidType,
                                String::from_str(
                                    "all of `items`'s value have to be a string type",
                                ),
                            ),
                        );
                    },
                };
                let display: String = items_members[j].0.clone();
                items_put(&mut items, display, id);
                j = j + 1;
            }
            let category_name: String = cat_members[i].0.clone();
            cats_put(&mut categories, category_name, items);
            i = i + 1;
        }
        Ok(JsonUsage::ItemShop { command, categories })
    }
}

} // verus!
