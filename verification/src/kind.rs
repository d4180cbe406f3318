//! The kind compatibility algebra.
//!
//! A kind is a semantic tag that separates quantities of equal dimension
//! that are not interchangeable (torque and energy, absolute temperature and
//! temperature difference).  The neutral kind composes as an identity; the
//! angle kind is built in because the inverse trigonometric operations
//! produce it.  Beyond the built-in rules, a registry of explicit rules — one
//! record per allowed combination — says which kinds may be added,
//! subtracted, multiplied or divided, and what kind the result carries.  A
//! combination no rule covers is rejected: the lookup returns `None`, and the
//! quantity operations require it to return `Some`.

use vstd::prelude::*;

verus! {

/// A kind tag.  `Neutral` is the identity ("unit kind") carried by plain
/// quantities; `Angle` is the built-in kind of angles; `Custom` carries a
/// caller-chosen label for registered kinds such as absolute temperature.
#[derive(Clone, Copy, PartialEq, Eq, Structural, Debug)]
pub enum Kind {
    Neutral,
    Angle,
    Custom(u64),
}

/// A registered rule: `lhs + rhs` is allowed and yields `output`.
#[derive(Clone, Copy, PartialEq, Eq, Structural, Debug)]
pub struct KindAddRule {
    pub lhs: Kind,
    pub rhs: Kind,
    pub output: Kind,
}

/// A registered rule: `lhs - rhs` is allowed and yields `output`.
#[derive(Clone, Copy, PartialEq, Eq, Structural, Debug)]
pub struct KindSubRule {
    pub lhs: Kind,
    pub rhs: Kind,
    pub output: Kind,
}

/// A registered rule: `lhs * rhs` is allowed and yields `output`.
#[derive(Clone, Copy, PartialEq, Eq, Structural, Debug)]
pub struct KindMulRule {
    pub lhs: Kind,
    pub rhs: Kind,
    pub output: Kind,
}

/// A registered rule: `lhs / rhs` is allowed and yields `output`.
#[derive(Clone, Copy, PartialEq, Eq, Structural, Debug)]
pub struct KindDivRule {
    pub lhs: Kind,
    pub rhs: Kind,
    pub output: Kind,
}

/// The rule registry consulted when an arithmetic operation is constructed.
/// Built-in rules are always present and take precedence; the registry only
/// adds combinations.
pub struct KindRules {
    pub add: Vec<KindAddRule>,
    pub sub: Vec<KindSubRule>,
    pub mul: Vec<KindMulRule>,
    pub div: Vec<KindDivRule>,
}

/// Built-in addition rules: the neutral kind adds to itself, and angles add
/// to angles.
pub open spec fn builtin_add(a: Kind, b: Kind) -> Option<Kind> {
    if a == Kind::Neutral && b == Kind::Neutral {
        Some(Kind::Neutral)
    } else if a == Kind::Angle && b == Kind::Angle {
        Some(Kind::Angle)
    } else {
        None
    }
}

/// Built-in subtraction rules: the neutral kind subtracts from itself, and
/// the difference of two angles is a plain ratio.
pub open spec fn builtin_sub(a: Kind, b: Kind) -> Option<Kind> {
    if a == Kind::Neutral && b == Kind::Neutral {
        Some(Kind::Neutral)
    } else if a == Kind::Angle && b == Kind::Angle {
        Some(Kind::Neutral)
    } else {
        None
    }
}

/// Built-in multiplication rules: the neutral kind is the identity on either
/// side.
pub open spec fn builtin_mul(a: Kind, b: Kind) -> Option<Kind> {
    if a == Kind::Neutral {
        Some(b)
    } else if b == Kind::Neutral {
        Some(a)
    } else {
        None
    }
}

/// Built-in division rules: dividing by the neutral kind keeps the kind,
/// self-division collapses to the neutral kind, and one over an angle stays
/// angle-flavoured.
pub open spec fn builtin_div(a: Kind, b: Kind) -> Option<Kind> {
    if b == Kind::Neutral {
        Some(a)
    } else if a == b {
        Some(Kind::Neutral)
    } else if a == Kind::Neutral && b == Kind::Angle {
        Some(Kind::Angle)
    } else {
        None
    }
}

/// First registered addition rule matching `(a, b)`.
pub open spec fn table_add(rules: Seq<KindAddRule>, a: Kind, b: Kind) -> Option<Kind>
    decreases rules.len(),
{
    if rules.len() == 0 {
        None
    } else if rules[0].lhs == a && rules[0].rhs == b {
        Some(rules[0].output)
    } else {
        table_add(rules.drop_first(), a, b)
    }
}

/// First registered subtraction rule matching `(a, b)`.
pub open spec fn table_sub(rules: Seq<KindSubRule>, a: Kind, b: Kind) -> Option<Kind>
    decreases rules.len(),
{
    if rules.len() == 0 {
        None
    } else if rules[0].lhs == a && rules[0].rhs == b {
        Some(rules[0].output)
    } else {
        table_sub(rules.drop_first(), a, b)
    }
}

/// First registered multiplication rule matching `(a, b)`.
pub open spec fn table_mul(rules: Seq<KindMulRule>, a: Kind, b: Kind) -> Option<Kind>
    decreases rules.len(),
{
    if rules.len() == 0 {
        None
    } else if rules[0].lhs == a && rules[0].rhs == b {
        Some(rules[0].output)
    } else {
        table_mul(rules.drop_first(), a, b)
    }
}

/// First registered division rule matching `(a, b)`.
pub open spec fn table_div(rules: Seq<KindDivRule>, a: Kind, b: Kind) -> Option<Kind>
    decreases rules.len(),
{
    if rules.len() == 0 {
        None
    } else if rules[0].lhs == a && rules[0].rhs == b {
        Some(rules[0].output)
    } else {
        table_div(rules.drop_first(), a, b)
    }
}

impl KindRules {
    /// An empty registry: only the built-in rules apply.
    pub fn new() -> (r: KindRules)
        ensures
            r.add@ =~= Seq::<KindAddRule>::empty(),
            r.sub@ =~= Seq::<KindSubRule>::empty(),
            r.mul@ =~= Seq::<KindMulRule>::empty(),
            r.div@ =~= Seq::<KindDivRule>::empty(),
    {
        KindRules { add: Vec::new(), sub: Vec::new(), mul: Vec::new(), div: Vec::new() }
    }

    /// The kind of `a + b`, if that addition is allowed.
    pub open spec fn add_rule(self, a: Kind, b: Kind) -> Option<Kind> {
        match builtin_add(a, b) {
            Some(k) => Some(k),
            None => table_add(self.add@, a, b),
        }
    }

    /// The kind of `a - b`, if that subtraction is allowed.
    pub open spec fn sub_rule(self, a: Kind, b: Kind) -> Option<Kind> {
        match builtin_sub(a, b) {
            Some(k) => Some(k),
            None => table_sub(self.sub@, a, b),
        }
    }

    /// The kind of `a * b`, if that multiplication is allowed.
    pub open spec fn mul_rule(self, a: Kind, b: Kind) -> Option<Kind> {
        match builtin_mul(a, b) {
            Some(k) => Some(k),
            None => table_mul(self.mul@, a, b),
        }
    }

    /// The kind of `a / b`, if that division is allowed.
    pub open spec fn div_rule(self, a: Kind, b: Kind) -> Option<Kind> {
        match builtin_div(a, b) {
            Some(k) => Some(k),
            None => table_div(self.div@, a, b),
        }
    }

    /// Registers `lhs + rhs -> output`.
    pub fn allow_add(&mut self, lhs: Kind, rhs: Kind, output: Kind)
        ensures
            final(self).add@ =~= old(self).add@.push(KindAddRule { lhs, rhs, output }),
            final(self).sub@ == old(self).sub@,
            final(self).mul@ == old(self).mul@,
            final(self).div@ == old(self).div@,
    {
        self.add.push(KindAddRule { lhs, rhs, output });
    }

    /// Registers `lhs - rhs -> output`.
    pub fn allow_sub(&mut self, lhs: Kind, rhs: Kind, output: Kind)
        ensures
            final(self).sub@ =~= old(self).sub@.push(KindSubRule { lhs, rhs, output }),
            final(self).add@ == old(self).add@,
            final(self).mul@ == old(self).mul@,
            final(self).div@ == old(self).div@,
    {
        self.sub.push(KindSubRule { lhs, rhs, output });
    }

    /// Registers `lhs * rhs -> output`.
    pub fn allow_mul(&mut self, lhs: Kind, rhs: Kind, output: Kind)
        ensures
            final(self).mul@ =~= old(self).mul@.push(KindMulRule { lhs, rhs, output }),
            final(self).add@ == old(self).add@,
            final(self).sub@ == old(self).sub@,
            final(self).div@ == old(self).div@,
    {
        self.mul.push(KindMulRule { lhs, rhs, output });
    }

    /// Registers `lhs / rhs -> output`.
    pub fn allow_div(&mut self, lhs: Kind, rhs: Kind, output: Kind)
        ensures
            final(self).div@ =~= old(self).div@.push(KindDivRule { lhs, rhs, output }),
            final(self).add@ == old(self).add@,
            final(self).sub@ == old(self).sub@,
            final(self).mul@ == old(self).mul@,
    {
        self.div.push(KindDivRule { lhs, rhs, output });
    }

    /// Looks up the kind of `a + b` at run time.
    pub fn lookup_add(&self, a: Kind, b: Kind) -> (r: Option<Kind>)
        ensures
            r == self.add_rule(a, b),
    {
        if a == Kind::Neutral && b == Kind::Neutral {
            return Some(Kind::Neutral);
        }
        if a == Kind::Angle && b == Kind::Angle {
            return Some(Kind::Angle);
        }
        let mut i: usize = 0;
        proof {
            assert(self.add@.skip(0) =~= self.add@);
        }
        while i < self.add.len()
            invariant
                i <= self.add@.len(),
                builtin_add(a, b) is None,
                table_add(self.add@, a, b) == table_add(self.add@.skip(i as int), a, b),
            decreases self.add@.len() - i,
        {
            let rule = self.add[i];
            proof {
                assert(self.add@.skip(i as int).drop_first() =~= self.add@.skip(i as int + 1));
                assert(self.add@.skip(i as int)[0] == rule);
            }
            if rule.lhs == a && rule.rhs == b {
                return Some(rule.output);
            }
            i = i + 1;
        }
        proof {
            assert(self.add@.skip(i as int) =~= Seq::<KindAddRule>::empty());
        }
        None
    }

    /// Looks up the kind of `a - b` at run time.
    pub fn lookup_sub(&self, a: Kind, b: Kind) -> (r: Option<Kind>)
        ensures
            r == self.sub_rule(a, b),
    {
        if a == Kind::Neutral && b == Kind::Neutral {
            return Some(Kind::Neutral);
        }
        if a == Kind::Angle && b == Kind::Angle {
            return Some(Kind::Neutral);
        }
        let mut i: usize = 0;
        proof {
            assert(self.sub@.skip(0) =~= self.sub@);
        }
        while i < self.sub.len()
            invariant
                i <= self.sub@.len(),
                builtin_sub(a, b) is None,
                table_sub(self.sub@, a, b) == table_sub(self.sub@.skip(i as int), a, b),
            decreases self.sub@.len() - i,
        {
            let rule = self.sub[i];
            proof {
                assert(self.sub@.skip(i as int).drop_first() =~= self.sub@.skip(i as int + 1));
                assert(self.sub@.skip(i as int)[0] == rule);
            }
            if rule.lhs == a && rule.rhs == b {
                return Some(rule.output);
            }
            i = i + 1;
        }
        proof {
            assert(self.sub@.skip(i as int) =~= Seq::<KindSubRule>::empty());
        }
        None
    }

    /// Looks up the kind of `a * b` at run time.
    pub fn lookup_mul(&self, a: Kind, b: Kind) -> (r: Option<Kind>)
        ensures
            r == self.mul_rule(a, b),
    {
        if a == Kind::Neutral {
            return Some(b);
        }
        if b == Kind::Neutral {
            return Some(a);
        }
        let mut i: usize = 0;
        proof {
            assert(self.mul@.skip(0) =~= self.mul@);
        }
        while i < self.mul.len()
            invariant
                i <= self.mul@.len(),
                builtin_mul(a, b) is None,
                table_mul(self.mul@, a, b) == table_mul(self.mul@.skip(i as int), a, b),
            decreases self.mul@.len() - i,
        {
            let rule = self.mul[i];
            proof {
                assert(self.mul@.skip(i as int).drop_first() =~= self.mul@.skip(i as int + 1));
                assert(self.mul@.skip(i as int)[0] == rule);
            }
            if rule.lhs == a && rule.rhs == b {
                return Some(rule.output);
            }
            i = i + 1;
        }
        proof {
            assert(self.mul@.skip(i as int) =~= Seq::<KindMulRule>::empty());
        }
        None
    }

    /// Looks up the kind of `a / b` at run time.
    pub fn lookup_div(&self, a: Kind, b: Kind) -> (r: Option<Kind>)
        ensures
            r == self.div_rule(a, b),
    {
        if b == Kind::Neutral {
            return Some(a);
        }
        if a == b {
            return Some(Kind::Neutral);
        }
        if a == Kind::Neutral && b == Kind::Angle {
            return Some(Kind::Angle);
        }
        let mut i: usize = 0;
        proof {
            assert(self.div@.skip(0) =~= self.div@);
        }
        while i < self.div.len()
            invariant
                i <= self.div@.len(),
                builtin_div(a, b) is None,
                table_div(self.div@, a, b) == table_div(self.div@.skip(i as int), a, b),
            decreases self.div@.len() - i,
        {
            let rule = self.div[i];
            proof {
                assert(self.div@.skip(i as int).drop_first() =~= self.div@.skip(i as int + 1));
                assert(self.div@.skip(i as int)[0] == rule);
            }
            if rule.lhs == a && rule.rhs == b {
                return Some(rule.output);
            }
            i = i + 1;
        }
        proof {
            assert(self.div@.skip(i as int) =~= Seq::<KindDivRule>::empty());
        }
        None
    }
}


/// The addition relation of the kind algebra: what `lhs + rhs` yields, if
/// anything, under a rule registry.
pub trait KindAdd {
    /// The kind of `a + b`, if that addition is allowed.
    spec fn add_rule_of(&self, a: Kind, b: Kind) -> Option<Kind>;

    /// Looks the rule up at run time.
    fn kind_add(&self, a: Kind, b: Kind) -> (r: Option<Kind>)
        ensures
            r == self.add_rule_of(a, b),
    ;
}

/// The subtraction relation of the kind algebra.
pub trait KindSub {
    /// The kind of `a - b`, if that subtraction is allowed.
    spec fn sub_rule_of(&self, a: Kind, b: Kind) -> Option<Kind>;

    /// Looks the rule up at run time.
    fn kind_sub(&self, a: Kind, b: Kind) -> (r: Option<Kind>)
        ensures
            r == self.sub_rule_of(a, b),
    ;
}

/// The multiplication relation of the kind algebra.
pub trait KindMul {
    /// The kind of `a * b`, if that multiplication is allowed.
    spec fn mul_rule_of(&self, a: Kind, b: Kind) -> Option<Kind>;

    /// Looks the rule up at run time.
    fn kind_mul(&self, a: Kind, b: Kind) -> (r: Option<Kind>)
        ensures
            r == self.mul_rule_of(a, b),
    ;
}

/// The division relation of the kind algebra.
pub trait KindDiv {
    /// The kind of `a / b`, if that division is allowed.
    spec fn div_rule_of(&self, a: Kind, b: Kind) -> Option<Kind>;

    /// Looks the rule up at run time.
    fn kind_div(&self, a: Kind, b: Kind) -> (r: Option<Kind>)
        ensures
            r == self.div_rule_of(a, b),
    ;
}

impl KindAdd for KindRules {
    open spec fn add_rule_of(&self, a: Kind, b: Kind) -> Option<Kind> {
        self.add_rule(a, b)
    }

    fn kind_add(&self, a: Kind, b: Kind) -> (r: Option<Kind>) {
        self.lookup_add(a, b)
    }
}

impl KindSub for KindRules {
    open spec fn sub_rule_of(&self, a: Kind, b: Kind) -> Option<Kind> {
        self.sub_rule(a, b)
    }

    fn kind_sub(&self, a: Kind, b: Kind) -> (r: Option<Kind>) {
        self.lookup_sub(a, b)
    }
}

impl KindMul for KindRules {
    open spec fn mul_rule_of(&self, a: Kind, b: Kind) -> Option<Kind> {
        self.mul_rule(a, b)
    }

    fn kind_mul(&self, a: Kind, b: Kind) -> (r: Option<Kind>) {
        self.lookup_mul(a, b)
    }
}

impl KindDiv for KindRules {
    open spec fn div_rule_of(&self, a: Kind, b: Kind) -> Option<Kind> {
        self.div_rule(a, b)
    }

    fn kind_div(&self, a: Kind, b: Kind) -> (r: Option<Kind>) {
        self.lookup_div(a, b)
    }
}

/// The neutral kind is the multiplicative identity and the divisive unit,
/// and self-division collapses to it, whatever rules are registered.
pub proof fn lemma_kind_identities(t: KindRules, k: Kind)
    ensures
        t.mul_rule(Kind::Neutral, k) == Some(k),
        t.mul_rule(k, Kind::Neutral) == Some(k),
        t.div_rule(k, Kind::Neutral) == Some(k),
        t.div_rule(k, k) == Some(Kind::Neutral),
        t.div_rule(Kind::Neutral, Kind::Angle) == Some(Kind::Angle),
{
}

} // verus!
