//! The Node.js release lines whose generator is modelled.
use vstd::prelude::*;
use vstd::string::*;

verus! {

/// A Node.js major version. The way a generator word becomes a double
/// changed with version 24.
#[derive(Clone, Copy, Debug, PartialEq, Eq, Structural)]
pub enum NodeJsMajorVersion {
    V0,
    V4,
    V5,
    V6,
    V7,
    V8,
    V9,
    V10,
    V11,
    V12,
    V13,
    V14,
    V15,
    V16,
    V17,
    V18,
    V19,
    V20,
    V21,
    V22,
    V23,
    V24,
}

impl NodeJsMajorVersion {
    /// The version's number.
    pub open spec fn major(self) -> u8 {
        match self {
            NodeJsMajorVersion::V0 => 0,
            NodeJsMajorVersion::V4 => 4,
            NodeJsMajorVersion::V5 => 5,
            NodeJsMajorVersion::V6 => 6,
            NodeJsMajorVersion::V7 => 7,
            NodeJsMajorVersion::V8 => 8,
            NodeJsMajorVersion::V9 => 9,
            NodeJsMajorVersion::V10 => 10,
            NodeJsMajorVersion::V11 => 11,
            NodeJsMajorVersion::V12 => 12,
            NodeJsMajorVersion::V13 => 13,
            NodeJsMajorVersion::V14 => 14,
            NodeJsMajorVersion::V15 => 15,
            NodeJsMajorVersion::V16 => 16,
            NodeJsMajorVersion::V17 => 17,
            NodeJsMajorVersion::V18 => 18,
            NodeJsMajorVersion::V19 => 19,
            NodeJsMajorVersion::V20 => 20,
            NodeJsMajorVersion::V21 => 21,
            NodeJsMajorVersion::V22 => 22,
            NodeJsMajorVersion::V23 => 23,
            NodeJsMajorVersion::V24 => 24,
        }
    }

    /// Whether a number names a known version: 0, or 4 up to 24.
    pub open spec fn is_known(value: u8) -> bool {
        value == 0 || 4 <= value <= 24
    }

    /// The version with the given number, if there is one.
    pub fn from_u8(value: u8) -> (version: Option<NodeJsMajorVersion>)
        ensures
            version.is_some() <==> Self::is_known(value),
            version matches Some(v) ==> v.major() == value,
    {
        match value {
            0 => Some(NodeJsMajorVersion::V0),
            4 => Some(NodeJsMajorVersion::V4),
            5 => Some(NodeJsMajorVersion::V5),
            6 => Some(NodeJsMajorVersion::V6),
            7 => Some(NodeJsMajorVersion::V7),
            8 => Some(NodeJsMajorVersion::V8),
            9 => Some(NodeJsMajorVersion::V9),
            10 => Some(NodeJsMajorVersion::V10),
            11 => Some(NodeJsMajorVersion::V11),
            12 => Some(NodeJsMajorVersion::V12),
            13 => Some(NodeJsMajorVersion::V13),
            14 => Some(NodeJsMajorVersion::V14),
            15 => Some(NodeJsMajorVersion::V15),
            16 => Some(NodeJsMajorVersion::V16),
            17 => Some(NodeJsMajorVersion::V17),
            18 => Some(NodeJsMajorVersion::V18),
            19 => Some(NodeJsMajorVersion::V19),
            20 => Some(NodeJsMajorVersion::V20),
            21 => Some(NodeJsMajorVersion::V21),
            22 => Some(NodeJsMajorVersion::V22),
            23 => Some(NodeJsMajorVersion::V23),
            24 => Some(NodeJsMajorVersion::V24),
            _ => None,
        }
    }

    /// The version's number.
    pub fn as_u8(self) -> (number: u8)
        ensures
            number == self.major(),
    {
        match self {
            NodeJsMajorVersion::V0 => 0,
            NodeJsMajorVersion::V4 => 4,
            NodeJsMajorVersion::V5 => 5,
            NodeJsMajorVersion::V6 => 6,
            NodeJsMajorVersion::V7 => 7,
            NodeJsMajorVersion::V8 => 8,
            NodeJsMajorVersion::V9 => 9,
            NodeJsMajorVersion::V10 => 10,
            NodeJsMajorVersion::V11 => 11,
            NodeJsMajorVersion::V12 => 12,
            NodeJsMajorVersion::V13 => 13,
            NodeJsMajorVersion::V14 => 14,
            NodeJsMajorVersion::V15 => 15,
            NodeJsMajorVersion::V16 => 16,
            NodeJsMajorVersion::V17 => 17,
            NodeJsMajorVersion::V18 => 18,
            NodeJsMajorVersion::V19 => 19,
            NodeJsMajorVersion::V20 => 20,
            NodeJsMajorVersion::V21 => 21,
            NodeJsMajorVersion::V22 => 22,
            NodeJsMajorVersion::V23 => 23,
            NodeJsMajorVersion::V24 => 24,
        }
    }

    /// The version as text: the letter `v` and the number in decimal.
    pub open spec fn label(self) -> Seq<char> {
        let n = self.major() as nat;
        if n < 10 {
            seq!['v', decimal_digit(n)]
        } else {
            seq!['v', decimal_digit(n / 10), decimal_digit(n % 10)]
        }
    }

    /// Renders the version as text, such as `v24`.
    pub fn to_string(&self) -> (text: String)
        ensures
            text@ == self.label(),
    {
        match self {
            NodeJsMajorVersion::V0 => {
                proof {
                    reveal_strlit("v0");
                    assert("v0"@ =~= seq!['v', '0']);
                }
                String::from_str("v0")
            },
            NodeJsMajorVersion::V4 => {
                proof {
                    reveal_strlit("v4");
                    assert("v4"@ =~= seq!['v', '4']);
                }
                String::from_str("v4")
            },
            NodeJsMajorVersion::V5 => {
                proof {
                    reveal_strlit("v5");
                    assert("v5"@ =~= seq!['v', '5']);
                }
                String::from_str("v5")
            },
            NodeJsMajorVersion::V6 => {
                proof {
                    reveal_strlit("v6");
                    assert("v6"@ =~= seq!['v', '6']);
                }
                String::from_str("v6")
            },
            NodeJsMajorVersion::V7 => {
                proof {
                    reveal_strlit("v7");
                    assert("v7"@ =~= seq!['v', '7']);
                }
                String::from_str("v7")
            },
            NodeJsMajorVersion::V8 => {
                proof {
                    reveal_strlit("v8");
                    assert("v8"@ =~= seq!['v', '8']);
                }
                String::from_str("v8")
            },
            NodeJsMajorVersion::V9 => {
                proof {
                    reveal_strlit("v9");
                    assert("v9"@ =~= seq!['v', '9']);
                }
                String::from_str("v9")
            },
            NodeJsMajorVersion::V10 => {
                proof {
                    reveal_strlit("v10");
                    assert("v10"@ =~= seq!['v', '1', '0']);
                }
                String::from_str("v10")
            },
            NodeJsMajorVersion::V11 => {
                proof {
                    reveal_strlit("v11");
                    assert("v11"@ =~= seq!['v', '1', '1']);
                }
                String::from_str("v11")
            },
            NodeJsMajorVersion::V12 => {
                proof {
                    reveal_strlit("v12");
                    assert("v12"@ =~= seq!['v', '1', '2']);
                }
                String::from_str("v12")
            },
            NodeJsMajorVersion::V13 => {
                proof {
                    reveal_strlit("v13");
                    assert("v13"@ =~= seq!['v', '1', '3']);
                }
                String::from_str("v13")
            },
            NodeJsMajorVersion::V14 => {
                proof {
                    reveal_strlit("v14");
                    assert("v14"@ =~= seq!['v', '1', '4']);
                }
                String::from_str("v14")
            },
            NodeJsMajorVersion::V15 => {
                proof {
                    reveal_strlit("v15");
                    assert("v15"@ =~= seq!['v', '1', '5']);
                }
                String::from_str("v15")
            },
            NodeJsMajorVersion::V16 => {
                proof {
                    reveal_strlit("v16");
                    assert("v16"@ =~= seq!['v', '1', '6']);
                }
                String::from_str("v16")
            },
            NodeJsMajorVersion::V17 => {
                proof {
                    reveal_strlit("v17");
                    assert("v17"@ =~= seq!['v', '1', '7']);
                }
                String::from_str("v17")
            },
            NodeJsMajorVersion::V18 => {
                proof {
                    reveal_strlit("v18");
                    assert("v18"@ =~= seq!['v', '1', '8']);
                }
                String::from_str("v18")
            },
            NodeJsMajorVersion::V19 => {
                proof {
                    reveal_strlit("v19");
                    assert("v19"@ =~= seq!['v', '1', '9']);
                }
                String::from_str("v19")
            },
            NodeJsMajorVersion::V20 => {
                proof {
                    reveal_strlit("v20");
                    assert("v20"@ =~= seq!['v', '2', '0']);
                }
                String::from_str("v20")
            },
            NodeJsMajorVersion::V21 => {
                proof {
                    reveal_strlit("v21");
                    assert("v21"@ =~= seq!['v', '2', '1']);
                }
                String::from_str("v21")
            },
            NodeJsMajorVersion::V22 => {
                proof {
                    reveal_strlit("v22");
                    assert("v22"@ =~= seq!['v', '2', '2']);
                }
                String::from_str("v22")
            },
            NodeJsMajorVersion::V23 => {
                proof {
                    reveal_strlit("v23");
                    assert("v23"@ =~= seq!['v', '2', '3']);
                }
                String::from_str("v23")
            },
            NodeJsMajorVersion::V24 => {
                proof {
                    reveal_strlit("v24");
                    assert("v24"@ =~= seq!['v', '2', '4']);
                }
                String::from_str("v24")
            },
        }
    }
}

/// The character of a decimal digit.
pub open spec fn decimal_digit(d: nat) -> char
    recommends
        d < 10,
{
    if d == 0 {
        '0'
    } else if d == 1 {
        '1'
    } else if d == 2 {
        '2'
    } else if d == 3 {
        '3'
    } else if d == 4 {
        '4'
    } else if d == 5 {
        '5'
    } else if d == 6 {
        '6'
    } else if d == 7 {
        '7'
    } else if d == 8 {
        '8'
    } else {
        '9'
    }
}

} // verus!
