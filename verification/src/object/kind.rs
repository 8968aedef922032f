use vstd::prelude::*;

verus! {

/// Describes the fundamental git object type (blob, tree, commit, or tag).
///
/// We use the word `kind` here to avoid conflict with the Rust reserved word
/// `type`.
///
/// Though not widely supported or used, objects of other made-up types can
/// also be stored by opting out of validity checking, so this type supports
/// storing other values, albeit less efficiently than the built-in types.
#[derive(Clone, Debug, PartialEq, Eq)]
pub enum Kind {
    Blob,
    Tree,
    Commit,
    Tag,
    Other(Vec<u8>),
}

impl Kind {
    /// The display form of this kind: the lowercase type name, or the raw
    /// bytes of a non-standard type.
    pub open spec fn spec_display_bytes(&self) -> Seq<u8> {
        match self {
            Kind::Blob => seq![('b' as u8), ('l' as u8), ('o' as u8), ('b' as u8)],
            Kind::Tree => seq![('t' as u8), ('r' as u8), ('e' as u8), ('e' as u8)],
            Kind::Commit => seq![
                ('c' as u8),
                ('o' as u8),
                ('m' as u8),
                ('m' as u8),
                ('i' as u8),
                ('t' as u8),
            ],
            Kind::Tag => seq![('t' as u8), ('a' as u8), ('g' as u8)],
            Kind::Other(name) => name@,
        }
    }

    /// The display form of this kind, as bytes.
    pub fn display_bytes(&self) -> (r: Vec<u8>)
        ensures
            r@ == self.spec_display_bytes(),
    {
        let mut r: Vec<u8> = Vec::new();
        match self {
            Kind::Blob => {
                r.push('b' as u8);
                r.push('l' as u8);
                r.push('o' as u8);
                r.push('b' as u8);
                proof {
                    assert(r@ =~= self.spec_display_bytes());
                }
            },
            Kind::Tree => {
                r.push('t' as u8);
                r.push('r' as u8);
                r.push('e' as u8);
                r.push('e' as u8);
                proof {
                    assert(r@ =~= self.spec_display_bytes());
                }
            },
            Kind::Commit => {
                r.push('c' as u8);
                r.push('o' as u8);
                r.push('m' as u8);
                r.push('m' as u8);
                r.push('i' as u8);
                r.push('t' as u8);
                proof {
                    assert(r@ =~= self.spec_display_bytes());
                }
            },
            Kind::Tag => {
                r.push('t' as u8);
                r.push('a' as u8);
                r.push('g' as u8);
                proof {
                    assert(r@ =~= self.spec_display_bytes());
                }
            },
            Kind::Other(name) => {
                let mut i: usize = 0;
                let n = name.len();
                while i < n
                    invariant
                        i <= n,
                        n == name@.len(),
                        r@ == name@.take(i as int),
                    decreases n - i,
                {
                    r.push(name[i]);
                    i += 1;
                    proof {
                        assert(r@ =~= name@.take(i as int));
                    }
                }
                proof {
                    assert(name@.take(n as int) =~= name@);
                    assert(r@ =~= self.spec_display_bytes());
                }
            },
        }
        r
    }
}

} // verus!
