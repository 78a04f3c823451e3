//! The rune-page endpoints and the shapes they exchange.
use vstd::prelude::*;

use crate::endpoints::{EndpointInfo, Method};
use crate::text::{decimal_string, decimal_text};

verus! {

const PERKS_URL: &'static str = "/lol-perks/v1";

/// The rune-page endpoints.
pub enum PerksEndpoint {
    /// The account's rune-page inventory.
    Inventory,
    /// The page collection, with the method to use and the encoded page to send, if any.
    Pages(Method, Option<String>),
    /// One page, by its identifier, with the method to use.
    PagesId(Method, isize),
}

impl PerksEndpoint {
    /// The request that reaches this endpoint.
    pub fn info(&self) -> (r: EndpointInfo)
        ensures
            r.headers is None,
            match self {
                PerksEndpoint::Inventory => r.url@ == "/lol-perks/v1/inventory"@ && r.method
                    == Method::Get && r.body is None,
                PerksEndpoint::Pages(method, body) => r.url@ == "/lol-perks/v1/pages"@ && r.method
                    == *method && (match body {
                    Some(b) => r.body matches Some(x) && x@ == b@,
                    None => r.body is None,
                }),
                PerksEndpoint::PagesId(method, id) => r.url@ == "/lol-perks/v1/pages/"@
                    + decimal_text(*id as int) && r.method == *method && r.body is None,
            },
    {
        proof {
            reveal_strlit("/lol-perks/v1");
            reveal_strlit("/inventory");
            reveal_strlit("/lol-perks/v1/inventory");
            reveal_strlit("/pages");
            reveal_strlit("/lol-perks/v1/pages");
            reveal_strlit("/pages/");
            reveal_strlit("/lol-perks/v1/pages/");
        }
        match self {
            PerksEndpoint::Inventory => EndpointInfo {
                url: String::from_str(PERKS_URL).concat("/inventory"),
                method: Method::Get,
                headers: None,
                body: None,
            },
            PerksEndpoint::Pages(method, body) => EndpointInfo {
                url: String::from_str(PERKS_URL).concat("/pages"),
                method: *method,
                headers: None,
                body: match body {
                    Some(b) => Some(b.clone()),
                    None => None,
                },
            },
            PerksEndpoint::PagesId(method, id) => {
                let digits = decimal_string(*id as i128);
                EndpointInfo {
                    url: String::from_str(PERKS_URL).concat("/pages/").concat(digits.as_str()),
                    method: *method,
                    headers: None,
                    body: None,
                }
            },
        }
    }
}

/// How many rune pages the account owns.
#[derive(Debug)]
pub struct PerksInventory {
    pub owned_page_count: isize,
}

/// The account's rune pages.
#[derive(Debug)]
pub struct PerksPages {
    pub pages: Vec<PerksPage>,
}

/// One rune page.
#[derive(Debug, Eq)]
pub struct PerksPage {
    pub auto_modified_selections: Vec<isize>,
    pub current: bool,
    pub id: isize,
    pub is_active: bool,
    pub is_deletable: bool,
    pub is_editable: bool,
    pub is_valid: bool,
    pub last_modified: isize,
    pub name: String,
    pub order: isize,
    pub primary_style_id: isize,
    pub selected_perk_ids: Vec<isize>,
    pub sub_style_id: isize,
}

/// Two rune pages are the same page when their names, styles and selected runes agree.
pub open spec fn same_page(a: &PerksPage, b: &PerksPage) -> bool {
    &&& a.name@ == b.name@
    &&& a.primary_style_id == b.primary_style_id
    &&& a.selected_perk_ids@ == b.selected_perk_ids@
    &&& a.sub_style_id == b.sub_style_id
}

/// Whether two lists of identifiers are equal.
fn ids_equal(a: &Vec<isize>, b: &Vec<isize>) -> (r: bool)
    ensures
        r == (a@ == b@),
{
    if a.len() != b.len() {
        return false;
    }
    let mut i: usize = 0;
    while i < a.len()
        invariant
            a@.len() == b@.len(),
            i <= a@.len(),
            forall|j: int| 0 <= j < i ==> a@[j] == b@[j],
        decreases a@.len() - i,
    {
        if a[i] != b[i] {
            return false;
        }
        i = i + 1;
    }
    proof {
        assert(a@ =~= b@);
    }
    true
}

impl PartialEq for PerksPage {
    fn eq(&self, other: &PerksPage) -> (r: bool)
        ensures
            r == same_page(self, other),
    {
        self.name == other.name && self.primary_style_id == other.primary_style_id && ids_equal(
            &self.selected_perk_ids,
            &other.selected_perk_ids,
        ) && self.sub_style_id == other.sub_style_id
    }
}

impl vstd::std_specs::cmp::PartialEqSpecImpl for PerksPage {
    open spec fn obeys_eq_spec() -> bool {
        true
    }

    open spec fn eq_spec(&self, other: &PerksPage) -> bool {
        same_page(self, other)
    }
}

impl Default for PerksPage {
    /// An empty, current, active, deletable, editable and valid page.
    fn default() -> (r: Self)
        ensures
            r.auto_modified_selections@.len() == 0,
            r.current && r.is_active && r.is_deletable && r.is_editable && r.is_valid,
            r.id == 0 && r.last_modified == 0 && r.order == 0,
            r.name@.len() == 0,
            r.primary_style_id == 0 && r.sub_style_id == 0,
            r.selected_perk_ids@.len() == 0,
    {
        PerksPage {
            auto_modified_selections: Vec::new(),
            current: true,
            id: 0,
            is_active: true,
            is_deletable: true,
            is_editable: true,
            is_valid: true,
            last_modified: 0,
            name: String::new(),
            order: 0,
            primary_style_id: 0,
            selected_perk_ids: Vec::new(),
            sub_style_id: 0,
        }
    }
}

} // verus!
