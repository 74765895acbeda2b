//! The rows of the install-order list (step 3): each row is either a mod
//! header ("parent") or one component of a mod, tied to its header by a block
//! id.
use vstd::prelude::*;

use crate::text::{
    ascii_upper, chars_of, decimal, push_decimal, push_str, push_upper,
};

verus! {

/// One row of the install-order list.
#[derive(Debug, Clone, PartialEq, Eq)]
pub struct Step3ItemState {
    pub tp_file: String,
    pub component_id: String,
    pub mod_name: String,
    pub component_label: String,
    pub raw_line: String,
    pub prompt_summary: Option<String>,
    pub prompt_events: Vec<String>,
    pub selected_order: usize,
    pub block_id: String,
    pub is_parent: bool,
    pub parent_placeholder: bool,
}

/// The mathematical content of a row.
pub struct ItemView {
    pub tp_file: Seq<char>,
    pub component_id: Seq<char>,
    pub mod_name: Seq<char>,
    pub component_label: Seq<char>,
    pub raw_line: Seq<char>,
    pub prompt_summary: Option<Seq<char>>,
    pub prompt_events: Seq<Seq<char>>,
    pub selected_order: usize,
    pub block_id: Seq<char>,
    pub is_parent: bool,
    pub parent_placeholder: bool,
}

impl View for Step3ItemState {
    type V = ItemView;

    open spec fn view(&self) -> ItemView {
        ItemView {
            tp_file: self.tp_file@,
            component_id: self.component_id@,
            mod_name: self.mod_name@,
            component_label: self.component_label@,
            raw_line: self.raw_line@,
            prompt_summary: match self.prompt_summary {
                Some(s) => Some(s@),
                None => None,
            },
            prompt_events: self.prompt_events.deep_view(),
            selected_order: self.selected_order,
            block_id: self.block_id@,
            is_parent: self.is_parent,
            parent_placeholder: self.parent_placeholder,
        }
    }
}

impl DeepView for Step3ItemState {
    type V = ItemView;

    open spec fn deep_view(&self) -> ItemView {
        self.view()
    }
}

/// The model of a list of rows.
pub open spec fn rows(items: Seq<Step3ItemState>) -> Seq<ItemView> {
    Seq::new(items.len(), |i: int| items[i]@)
}

/// The key that says which mod a row belongs to: its tp2 file and mod name,
/// both ASCII upper-cased, joined by `::`.
pub open spec fn mod_key(v: ItemView) -> Seq<char> {
    ascii_upper(v.tp_file) + seq![':', ':'] + ascii_upper(v.mod_name)
}

/// The identity of a row: its text fields and selection order joined by `|`.
pub open spec fn item_key(v: ItemView) -> Seq<char> {
    v.tp_file + seq!['|'] + v.mod_name + seq!['|'] + v.component_id + seq!['|']
        + v.component_label + seq!['|'] + v.raw_line + seq!['|'] + decimal(
        v.selected_order as nat,
    )
}

/// Whether the row is a component (not a mod header).
pub open spec fn is_child(v: ItemView) -> bool {
    !v.is_parent
}

/// The identity key of a row (`tp|mod|component|label|raw|order`).
pub fn step3_item_key(item: &Step3ItemState) -> (key: String)
    ensures
        key@ == item_key(item@),
{
    let mut s = String::new();
    push_str(&mut s, item.tp_file.as_str());
    push_str(&mut s, "|");
    push_str(&mut s, item.mod_name.as_str());
    push_str(&mut s, "|");
    push_str(&mut s, item.component_id.as_str());
    push_str(&mut s, "|");
    push_str(&mut s, item.component_label.as_str());
    push_str(&mut s, "|");
    push_str(&mut s, item.raw_line.as_str());
    push_str(&mut s, "|");
    push_decimal(&mut s, item.selected_order);
    proof {
        reveal_strlit("|");
    }
    assert(s@ =~= item_key(item@));
    s
}

/// The mod key of a row (`TP_FILE::MOD_NAME`, ASCII upper-cased).
pub fn mod_key_of(item: &Step3ItemState) -> (key: String)
    ensures
        key@ == mod_key(item@),
{
    let mut s = String::new();
    push_upper(&mut s, item.tp_file.as_str());
    push_str(&mut s, "::");
    push_upper(&mut s, item.mod_name.as_str());
    proof {
        reveal_strlit("::");
    }
    assert(s@ =~= mod_key(item@));
    s
}

/// A copy of a list of strings.
pub fn copy_strings(v: &Vec<String>) -> (r: Vec<String>)
    ensures
        r.deep_view() == v.deep_view(),
{
    let mut r: Vec<String> = Vec::new();
    let mut i: usize = 0;
    while i < v.len()
        invariant
            i <= v.len(),
            r@.len() == i,
            forall|k: int| 0 <= k < i ==> r@[k]@ == v@[k]@,
        decreases v.len() - i,
    {
        r.push(v[i].clone());
        i += 1;
    }
    assert(r.deep_view() =~= v.deep_view());
    r
}

/// A copy of an optional string.
pub fn copy_opt_string(v: &Option<String>) -> (r: Option<String>)
    ensures
        match (r, *v) {
            (Some(a), Some(b)) => a@ == b@,
            (None, None) => true,
            _ => false,
        },
{
    match v {
        Some(s) => Some(s.clone()),
        None => None,
    }
}

impl Step3ItemState {
    /// A copy of this row.
    pub fn duplicate(&self) -> (r: Step3ItemState)
        ensures
            r@ == self@,
    {
        let r = Step3ItemState {
            tp_file: self.tp_file.clone(),
            component_id: self.component_id.clone(),
            mod_name: self.mod_name.clone(),
            component_label: self.component_label.clone(),
            raw_line: self.raw_line.clone(),
            prompt_summary: copy_opt_string(&self.prompt_summary),
            prompt_events: copy_strings(&self.prompt_events),
            selected_order: self.selected_order,
            block_id: self.block_id.clone(),
            is_parent: self.is_parent,
            parent_placeholder: self.parent_placeholder,
        };
        r
    }
}

/// A copy of a whole list of rows.
pub fn copy_items(items: &Vec<Step3ItemState>) -> (r: Vec<Step3ItemState>)
    ensures
        rows(r@) == rows(items@),
{
    let mut r: Vec<Step3ItemState> = Vec::new();
    let mut i: usize = 0;
    while i < items.len()
        invariant
            i <= items.len(),
            r@.len() == i,
            forall|k: int| 0 <= k < i ==> r@[k]@ == items@[k]@,
        decreases items.len() - i,
    {
        r.push(items[i].duplicate());
        i += 1;
    }
    assert(rows(r@) =~= rows(items@));
    r
}

/// The model of a list of strings.
pub open spec fn names(list: Seq<String>) -> Seq<Seq<char>> {
    Seq::new(list.len(), |i: int| list[i]@)
}

/// Whether `list` holds a string equal to `s`.
pub fn contains_string(list: &[String], s: &String) -> (r: bool)
    ensures
        r == names(list@).contains(s@),
{
    let mut i: usize = 0;
    while i < list.len()
        invariant
            i <= list@.len(),
            forall|k: int| 0 <= k < i ==> (#[trigger] list@[k])@ != s@,
        decreases list@.len() - i,
    {
        if list[i] == *s {
            assert(names(list@)[i as int] == s@);
            return true;
        }
        i += 1;
    }
    assert(!names(list@).contains(s@)) by {
        if names(list@).contains(s@) {
            let k = choose|k: int| 0 <= k < names(list@).len() && names(list@)[k] == s@;
            assert(list@[k]@ == s@);
        }
    }
    false
}

} // verus!
