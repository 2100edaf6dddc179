//! The item-shop usage: its category/item tables and its purchase command.

use vstd::prelude::*;

use crate::error::Error;
use crate::error::ErrorKind;
use crate::GenerateCommand;

verus! {

/// The items of one category: display name to item identifier, in first
/// insertion order, keys unique.
pub type ItemShopItems = Vec<(String, String)>;

/// The categories of an item shop: category name to its items, in first
/// insertion order, keys unique.
pub type ItemShopCategories = Vec<(String, ItemShopItems)>;

/// A purchase command: a key bound to a command that takes an item
/// identifier as its argument.
#[derive(Debug, Clone, PartialEq)]
pub struct ItemShopCommand {
    pub key: String,
    pub command: String,
    pub item: String,
}

/// The mathematical image of an [`ItemShopCommand`].
pub struct ItemShopCommandV {
    pub key: Seq<char>,
    pub command: Seq<char>,
    pub item: Seq<char>,
}

impl View for ItemShopCommand {
    type V = ItemShopCommandV;

    open spec fn view(&self) -> ItemShopCommandV {
        ItemShopCommandV { key: self.key@, command: self.command@, item: self.item@ }
    }
}

/// A purchase command generates iff all three of its fields are non-empty.
pub open spec fn shop_cmd_ok(c: ItemShopCommandV) -> bool {
    c.key.len() > 0 && c.command.len() > 0 && c.item.len() > 0
}

/// The three-token bind a purchase command renders to.
pub open spec fn shop_cmd_text(c: ItemShopCommandV) -> Seq<char> {
    "bind "@ + c.key + " "@ + c.command + " "@ + c.item
}

/// The message a malformed purchase command is reported with: the first
/// empty field, in the order `command`, `item`, `key`.
pub open spec fn shop_cmd_err_msg(c: ItemShopCommandV) -> Seq<char> {
    if c.command.len() == 0 {
        "ItemShopCommand's command field is empty"@
    } else if c.item.len() == 0 {
        "ItemShopCommand's item field is empty"@
    } else {
        "ItemShopCommand's key field is empty"@
    }
}

impl ItemShopCommand {
    pub fn new(key: String, command: String, item: String) -> (r: Self)
        ensures
            r.key == key,
            r.command == command,
            r.item == item,
    {
        Self { key, command, item }
    }
}

impl GenerateCommand for ItemShopCommand {
    open spec fn gen_ok(&self) -> bool {
        shop_cmd_ok(self@)
    }

    open spec fn gen_text(&self) -> Seq<char> {
        shop_cmd_text(self@)
    }

    open spec fn gen_err_kind(&self) -> ErrorKind {
        ErrorKind::FieldEmpty
    }

    open spec fn gen_err_msg(&self) -> Seq<char> {
        shop_cmd_err_msg(self@)
    }

    fn generate(&self) -> (r: Result<String, Error>) {
        if self.command.as_str().is_empty() {
            return Err(
                ErrorKind::FieldEmpty.msg(
                    String::from_str("ItemShopCommand's command field is empty"),
                ),
            );
        }
        if self.item.as_str().is_empty() {
            return Err(
                ErrorKind::FieldEmpty.msg(
                    String::from_str("ItemShopCommand's item field is empty"),
                ),
            );
        }
        if self.key.as_str().is_empty() {
            return Err(
                ErrorKind::FieldEmpty.msg(
                    String::from_str("ItemShopCommand's key field is empty"),
                ),
            );
        }
        let mut s = String::from_str("bind ");
        s.append(self.key.as_str());
        s.append(" ");
        s.append(self.command.as_str());
        s.append(" ");
        s.append(self.item.as_str());
        Ok(s)
    }
}

} // verus!
