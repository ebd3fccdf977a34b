//! Where the items come from: the addresses of the upstream item source.
use vstd::prelude::*;
use crate::text::string_from;

verus! {

pub open spec fn digit_chars() -> Seq<char> {
    seq!['0', '1', '2', '3', '4', '5', '6', '7', '8', '9']
}

/// The decimal digits of `n`, most significant first, without leading zeros.
pub open spec fn decimal(n: nat) -> Seq<char>
    decreases n,
{
    if n < 10 {
        seq![digit_chars()[n as int]]
    } else {
        decimal(n / 10).push(digit_chars()[(n % 10) as int])
    }
}

/// The decimal form of `n`.
pub fn decimal_string(n: u64) -> (r: String)
    ensures
        r@ == decimal(n as nat),
{
    let table: [char; 10] = ['0', '1', '2', '3', '4', '5', '6', '7', '8', '9'];
    assert(table@ =~= digit_chars());
    let mut digits: Vec<char> = Vec::new();
    digits.push(table[(n % 10) as usize]);
    let mut m: u64 = n / 10;
    assert(decimal(n as nat) =~= (if m == 0 { Seq::empty() } else { decimal(m as nat) })
        + digits@);
    while m > 0
        invariant
            table@ == digit_chars(),
            decimal(n as nat) == (if m == 0 { Seq::empty() } else { decimal(m as nat) }) + digits@,
        decreases m,
    {
        let ghost before = digits@;
        digits.insert(0, table[(m % 10) as usize]);
        assert(digits@ =~= seq![digit_chars()[(m % 10) as int]] + before);
        let ghost old_m = m;
        m = m / 10;
        if m == 0 {
            assert(decimal(old_m as nat) + before =~= digits@);
        } else {
            assert(decimal(old_m as nat) + before =~= decimal(m as nat) + digits@);
        }
    }
    assert(Seq::<char>::empty() + digits@ =~= digits@);
    string_from(&digits, 0, digits.len())
}

/// The upstream item source, addressed by its base URL.
pub struct ItemSource {
    pub base_url: String,
}

impl ItemSource {
    /// The public Hacker News source.
    pub fn new() -> (r: ItemSource)
        ensures
            r.base_url@ == "https://hacker-news.firebaseio.com/v0"@,
    {
        ItemSource { base_url: String::from_str("https://hacker-news.firebaseio.com/v0") }
    }

    /// `<base>/topstories.json`: the ordered list of top ids.
    pub fn top_stories_url(&self) -> (r: String)
        ensures
            r@ == self.base_url@ + "/topstories.json"@,
    {
        let mut r = self.base_url.clone();
        r.append("/topstories.json");
        r
    }

    /// `<base>/item/<id>.json`: one item.
    pub fn item_url(&self, id: u32) -> (r: String)
        ensures
            r@ == self.base_url@ + "/item/"@ + decimal(id as nat) + ".json"@,
    {
        let mut r = self.base_url.clone();
        r.append("/item/");
        let digits = decimal_string(id as u64);
        r.append(digits.as_str());
        r.append(".json");
        r
    }
}

} // verus!
