//! Uniform resource locators, as far as the tasks read them.

use vstd::prelude::*;
use vstd::string::StrSliceExecFns;

verus! {

/// A locator: its full text and the path within it.
#[derive(Debug, PartialEq, Eq)]
pub struct Url {
    pub text: String,
    pub path: String,
}

impl Clone for Url {
    fn clone(&self) -> (res: Url)
        ensures
            res == *self,
    {
        Url { text: self.text.clone(), path: self.path.clone() }
    }
}

impl Url {
    /// Whether two locators are the same.
    pub open spec fn same(self, other: Url) -> bool {
        self.text@ == other.text@ && self.path@ == other.path@
    }

    /// Whether the path names a script file.
    pub open spec fn names_script(self) -> bool {
        seq!['.', 'j', 's'].is_suffix_of(self.path@)
    }

    /// Decides whether two locators are the same.
    pub fn is_same(&self, other: &Url) -> (res: bool)
        ensures
            res == self.same(*other),
    {
        self.text == other.text && self.path == other.path
    }

    /// Decides whether the path ends in `.js`.
    pub fn is_script(&self) -> (res: bool)
        ensures
            res == self.names_script(),
    {
        let path = self.path.as_str();
        let len: usize = path.unicode_len();
        if len < 3 {
            return false;
        }
        let res: bool = path.get_char(len - 3) == '.' && path.get_char(len - 2) == 'j'
            && path.get_char(len - 1) == 's';
        proof {
            let tail = self.path@.subrange(len - 3, len as int);
            assert(res <==> tail =~= seq!['.', 'j', 's']);
        }
        res
    }
}

/// A locator names a script exactly if its path ends in `.js`; its full text does not matter.
pub proof fn law_script_paths(url: Url, answer: bool)
    requires
        call_ensures(Url::is_script, (&url,), answer),
    ensures
        ({
            let len = url.path@.len() as int;
            answer <==> {
                &&& len >= 3
                &&& url.path@[len - 3] == '.'
                &&& url.path@[len - 2] == 'j'
                &&& url.path@[len - 1] == 's'
            }
        }),
{
    let path = url.path@;
    let len = path.len() as int;
    if len >= 3 {
        let tail = path.subrange(len - 3, len);
        let suffix = seq!['.', 'j', 's'];
        assert(tail =~= suffix <==> (path[len - 3] == '.' && path[len - 2] == 'j' && path[len - 1]
            == 's'));
    }
}

/// Locators are the same exactly if their texts and their paths are.
pub proof fn law_same_locators(one: Url, other: Url, answer: bool)
    requires
        call_ensures(Url::is_same, (&one, &other), answer),
    ensures
        answer <==> one.text@ == other.text@ && one.path@ == other.path@,
{
}

} // verus!
