//! The vault account identity: an email address, validated on construction.

use vstd::prelude::*;

use crate::text::is_space;

verus! {

/// `i` marks the only `@` of `s`, with at least one character before it and,
/// somewhere after it, a dot with at least one character on each side.
pub open spec fn at_splits_email(s: Seq<char>, i: int) -> bool {
    &&& 1 <= i < s.len()
    &&& s[i] == '@'
    &&& forall|k: int| 0 <= k < s.len() && k != i ==> s[k] != '@'
    &&& exists|j: int| i + 2 <= j <= s.len() - 2 && s[j] == '.'
}

/// A valid address: no whitespace anywhere, and exactly one `@` splitting a
/// non-empty local part from a domain that contains an inner dot.
pub open spec fn valid_email(s: Seq<char>) -> bool {
    &&& forall|k: int| 0 <= k < s.len() ==> !is_space(s[k])
    &&& exists|i: int| at_splits_email(s, i)
}

pub struct Email {
    address: String,
}

impl View for Email {
    type V = Seq<char>;

    closed spec fn view(&self) -> Seq<char> {
        self.address@
    }
}

pub enum EmailError {
    Invalid,
}

impl Email {
    /// Accepts the text exactly when it is a valid address.
    pub fn new(address: String) -> (r: Result<Email, EmailError>)
        ensures
            match r {
                Ok(e) => e@ == address@ && valid_email(address@),
                Err(_) => !valid_email(address@),
            },
    {
        let s = address.as_str();
        let n = s.unicode_len();
        if n < 5 {
            proof {
                assert forall|x: int| !at_splits_email(s@, x) by {
                    if at_splits_email(s@, x) {
                        let jj = choose|jj: int| x + 2 <= jj <= s@.len() - 2 && s@[jj] == '.';
                        assert(x >= 1 && jj >= x + 2 && jj <= s@.len() - 2);
                    }
                }
                assert(!valid_email(s@));
                assert(!valid_email(address@));
            }
            return Err(EmailError::Invalid);
        }
        let mut at_count: usize = 0;
        let mut at_idx: usize = 0;
        let mut i: usize = 0;
        while i < n
            invariant
                i <= n,
                n == s@.len(),
                s@ == address@,
                at_count <= 1,
                at_count == 0 ==> forall|k: int| 0 <= k < i ==> s@[k] != '@',
                at_count > 0 ==> at_idx < i && s@[at_idx as int] == '@',
                at_count == 1 ==> forall|k: int|
                    0 <= k < i && k != at_idx ==> s@[k] != '@',
                forall|k: int| 0 <= k < i ==> !is_space(s@[k]),
            decreases n - i,
        {
            let c = s.get_char(i);
            if crate::text::is_space_char(c) {
                proof {
                    assert(!valid_email(s@)) by {
                        if valid_email(s@) {
                            assert(!is_space(s@[i as int]));
                        }
                    }
                    assert(!valid_email(address@));
                }
                return Err(EmailError::Invalid);
            }
            if c == '@' {
                if at_count > 0 {
                    proof {
                        assert forall|x: int| !at_splits_email(s@, x) by {
                            if at_splits_email(s@, x) {
                                if x != at_idx {
                                    assert(s@[at_idx as int] == '@');
                                } else {
                                    assert(s@[i as int] == '@');
                                }
                            }
                        }
                        assert(!valid_email(s@));
                        assert(!valid_email(address@));
                    }
                    return Err(EmailError::Invalid);
                }
                at_count = 1;
                at_idx = i;
            }
            i = i + 1;
        }
        if at_count == 0 {
            proof {
                assert forall|x: int| !at_splits_email(s@, x) by {
                    if at_splits_email(s@, x) {
                        assert(s@[x] == '@');
                    }
                }
                assert(!valid_email(s@));
                assert(!valid_email(address@));
            }
            return Err(EmailError::Invalid);
        }
        if at_idx == 0 {
            proof {
                assert forall|x: int| !at_splits_email(s@, x) by {
                    if at_splits_email(s@, x) && x != 0 {
                        assert(s@[0int] == '@');
                    }
                }
                assert(!valid_email(s@));
                assert(!valid_email(address@));
            }
            return Err(EmailError::Invalid);
        }
        if at_idx > n - 4 {
            proof {
                assert forall|x: int| !at_splits_email(s@, x) by {
                    if at_splits_email(s@, x) {
                        if x != at_idx {
                            assert(s@[at_idx as int] == '@');
                        } else {
                            let jj = choose|jj: int|
                                x + 2 <= jj <= s@.len() - 2 && s@[jj] == '.';
                            assert(jj >= x + 2 && jj <= s@.len() - 2);
                        }
                    }
                }
                assert(!valid_email(s@));
                assert(!valid_email(address@));
            }
            return Err(EmailError::Invalid);
        }
        let mut j: usize = at_idx + 2;
        let mut dot: usize = 0;
        let mut found = false;
        while j <= n - 2 && !found
            invariant
                5 <= n == s@.len(),
                s@ == address@,
                at_idx + 2 <= j <= n,
                !found ==> forall|k: int| at_idx + 2 <= k < j ==> s@[k] != '.',
                found ==> at_idx + 2 <= dot <= n - 2 && s@[dot as int] == '.',
            decreases
                    n - j,
                    (if found {
                        0int
                    } else {
                        1int
                    }),
        {
            if s.get_char(j) == '.' {
                dot = j;
                found = true;
            } else {
                j = j + 1;
            }
        }
        if found {
            proof {
                assert(at_idx + 2 <= dot as int <= s@.len() - 2 && s@[dot as int] == '.');
                assert(at_splits_email(s@, at_idx as int));
                assert(valid_email(s@));
                assert(valid_email(address@));
            }
            Ok(Email { address })
        } else {
            proof {
                assert(j > n - 2);
                assert forall|x: int| !at_splits_email(s@, x) by {
                    if at_splits_email(s@, x) {
                        if x != at_idx {
                            assert(s@[at_idx as int] == '@');
                        } else {
                            let d = choose|jj: int|
                                x + 2 <= jj <= s@.len() - 2 && s@[jj] == '.';
                            assert(s@[d] != '.');
                        }
                    }
                }
                assert(!valid_email(s@));
                assert(!valid_email(address@));
            }
            Err(EmailError::Invalid)
        }
    }

    /// The address text.
    pub fn as_ref(&self) -> (r: &str)
        ensures
            r@ == self@,
    {
        self.address.as_str()
    }
}

} // verus!
