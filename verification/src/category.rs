use crate::document::{find, lookup, read_table, table_view, toml_table, FieldValue, FieldView, TableView};
use vstd::arithmetic::div_mod::{lemma_fundamental_div_mod, lemma_fundamental_div_mod_converse};
use vstd::prelude::*;

verus! {

/// What a directory's configuration file says of the section made from it.
#[derive(Debug, Clone, Copy, PartialEq, Eq)]
pub struct Category {
    /// Where the section stands among its siblings, if that is set by hand.
    pub order: Option<usize>,
    /// Whether the section's children sort downwards.
    pub sort_order_reversed: bool,
}

/// Why a category configuration was not loaded.
#[derive(Debug, Clone, Copy, PartialEq, Eq, Structural)]
pub enum CategoryError {
    /// The text is not a TOML document.
    Syntax,
}

/// The configuration of a directory that has no configuration file.
pub open spec fn plain_category() -> Category {
    Category { order: None, sort_order_reversed: false }
}

/// The order that the integer `n` stands for: `n` itself where it is an
/// order, and else what is left of it modulo the number of orders there are,
/// as a cast gives it.
pub open spec fn wrapped_order(n: i64) -> usize {
    (n as int % (usize::MAX as int + 1)) as usize
}

/// The configuration that the table `fields` gives: `order` where it is an
/// integer, and `sort_order_reversed` where it is a boolean. Anything else
/// in the table is passed over.
pub open spec fn category_of(fields: TableView) -> Category {
    Category {
        order: match lookup(fields, "order"@) {
            Some(FieldView::Integer(n)) => Some(wrapped_order(n)),
            _ => None,
        },
        sort_order_reversed: match lookup(fields, "sort_order_reversed"@) {
            Some(FieldView::Flag(b)) => b,
            _ => false,
        },
    }
}

/// The configuration of a directory whose configuration file, if it has one, holds `text`.
pub open spec fn configured(text: Option<Seq<char>>) -> Result<Category, CategoryError> {
    match text {
        None => Ok(plain_category()),
        Some(t) => match toml_table(t) {
            None => Err(CategoryError::Syntax),
            Some(fields) => Ok(category_of(fields)),
        },
    }
}

/// Computes `wrapped_order`.
pub fn wrap_order(n: i64) -> (r: usize)
    ensures
        r == wrapped_order(n),
        0 <= n <= usize::MAX ==> r == n,
{
    let max: u64 = usize::MAX as u64;
    let ghost modulus: int = usize::MAX as int + 1;
    if n >= 0 {
        let m: u64 = n as u64;
        if max == u64::MAX {
            proof {
                lemma_fundamental_div_mod_converse(n as int, modulus, 0, n as int);
            }
            m as usize
        } else {
            proof {
                if m <= max {
                    lemma_fundamental_div_mod_converse(n as int, modulus, 0, n as int);
                }
            }
            (m % (max + 1)) as usize
        }
    } else {
        let k: u64 = (-(n + 1)) as u64;
        let rest: u64 = if max == u64::MAX {
            k
        } else {
            k % (max + 1)
        };
        proof {
            let q: int = if max == u64::MAX {
                0
            } else {
                k as int / modulus
            };
            if max != u64::MAX {
                lemma_fundamental_div_mod(k as int, modulus);
            }
            assert(k as int == modulus * q + rest as int);
            assert(n as int == (-(q + 1)) * modulus + (max as int - rest as int)) by (nonlinear_arith)
                requires
                    n as int == -(k as int + 1),
                    k as int == modulus * q + rest as int,
                    modulus == max as int + 1,
            ;
            lemma_fundamental_div_mod_converse(
                n as int,
                modulus,
                -(q + 1),
                max as int - rest as int,
            );
        }
        (max - rest) as usize
    }
}

/// Computes `category_of`.
pub fn category_from_fields(fields: &Vec<(String, FieldValue)>) -> (r: Category)
    ensures
        r == category_of(table_view(fields@)),
{
    let order = match find(fields, "order") {
        Some(FieldValue::Integer(n)) => Some(wrap_order(*n)),
        _ => None,
    };
    let sort_order_reversed = match find(fields, "sort_order_reversed") {
        Some(FieldValue::Flag(b)) => *b,
        _ => false,
    };
    Category { order, sort_order_reversed }
}

/// Reads a directory's configuration: `text` is what its configuration file
/// holds, or `None` where the directory has no such file.
pub fn load_category(text: Option<&str>) -> (r: Result<Category, CategoryError>)
    ensures
        r == configured(
            match text {
                Some(t) => Some(t@),
                None => None,
            },
        ),
{
    match text {
        None => Ok(Category { order: None, sort_order_reversed: false }),
        Some(t) => match read_table(t) {
            Ok(fields) => Ok(category_from_fields(&fields)),
            Err(_) => Err(CategoryError::Syntax),
        },
    }
}

} // verus!
