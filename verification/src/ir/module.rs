//! A whole program: functions, their signatures, and which one runs first.
//!
//! Declaration is separate from definition so a call site can name a callee
//! whose body does not exist yet — mutual recursion needs it, and so does
//! computing every function's frame size before emitting any of them.

use vstd::prelude::*;

use super::entity::Func;
use super::func::Function;
use super::types::{types_eq, Signature};
use super::{ir_result, IrError, IrFault};
use crate::isa::Fork;

verus! {

/// Whether two signatures list the same types.
pub open spec fn same_signature(a: Signature, b: Signature) -> bool {
    a.params@ == b.params@ && a.returns@ == b.returns@
}

/// The abstract state of a [`Module`].
pub struct ModuleModel {
    pub fork: Fork,
    pub names: Seq<Seq<char>>,
    pub sigs: Seq<Signature>,
    /// `None` for a function declared but not defined.
    pub bodies: Seq<Option<Function>>,
    pub entry: Option<Func>,
}

impl ModuleModel {
    /// The first declared function at or after `k` with no body.
    pub open spec fn first_undefined(self, k: int) -> Option<int>
        decreases self.bodies.len() - k,
    {
        if k < 0 || k >= self.bodies.len() {
            None
        } else if self.bodies[k] is None {
            Some(k)
        } else {
            self.first_undefined(k + 1)
        }
    }

    /// What [`Module::verify`] reports: the first function declared but never
    /// defined, else a missing entry point, else success.
    pub open spec fn verify(self) -> Result<(), IrFault> {
        match self.first_undefined(0) {
            Some(k) => Err(IrFault::Undefined { func: Func(k as u32), name: self.names[k] }),
            None => if self.entry is None {
                Err(IrFault::NoEntry)
            } else {
                Ok(())
            },
        }
    }
}

/// A module targets one fork, because the assembler does.
pub struct Module {
    pub fork: Fork,
    names: Vec<String>,
    sigs: Vec<Signature>,
    funcs: Vec<Option<Function>>,
    entry: Option<Func>,
}

impl View for Module {
    type V = ModuleModel;

    closed spec fn view(&self) -> ModuleModel {
        ModuleModel {
            fork: self.fork,
            names: self.names@.map_values(|n: String| n@),
            sigs: self.sigs@,
            bodies: self.funcs@,
            entry: self.entry,
        }
    }
}

impl Module {
    /// The module's three arenas agree in length, and that length fits a
    /// `u32` handle.
    pub open spec fn wf(&self) -> bool {
        &&& self@.names.len() == self@.sigs.len()
        &&& self@.sigs.len() == self@.bodies.len()
        &&& self@.names.len() <= u32::MAX as int + 1
    }

    pub fn new(fork: Fork) -> (r: Module)
        ensures
            r@ == (ModuleModel {
                fork,
                names: Seq::empty(),
                sigs: Seq::empty(),
                bodies: Seq::empty(),
                entry: None,
            }),
            r.wf(),
    {
        let r = Module { fork, names: Vec::new(), sigs: Vec::new(), funcs: Vec::new(), entry: None };
        assert(r@.names =~= Seq::empty());
        r
    }

    /// Reserve a handle and a signature. The body may come later, or never —
    /// [`verify`](Self::verify) is what insists it arrives.
    pub fn declare(&mut self, name: &str, sig: Signature) -> (r: Func)
        requires
            old(self).wf(),
            old(self)@.names.len() <= u32::MAX,
        ensures
            r == Func(old(self)@.names.len() as u32),
            final(self)@ == (ModuleModel {
                names: old(self)@.names.push(name@),
                sigs: old(self)@.sigs.push(sig),
                bodies: old(self)@.bodies.push(None),
                ..old(self)@
            }),
            final(self).wf(),
    {
        let func = Func::new(self.names.len());
        let ghost names = self@.names;
        self.names.push(name.to_owned());
        self.sigs.push(sig);
        self.funcs.push(None);
        assert(self@.names =~= names.push(name@));
        func
    }

    /// Attach a body to a declaration. Fails if the body's signature
    /// disagrees with the declared one, or if a body is already present.
    pub fn define(&mut self, func: Func, body: Function) -> (r: Result<(), IrError>)
        requires
            old(self).wf(),
            (func.0 as int) < old(self)@.names.len(),
        ensures
            ({
                let m = old(self)@;
                let f = func.0 as int;
                if !same_signature(body.signature(), m.sigs[f]) {
                    ir_result(r) == Err::<(), IrFault>(IrFault::SignatureMismatch { func, name: m.names[f] })
                        && final(self)@ == m
                } else if m.bodies[f] is Some {
                    ir_result(r) == Err::<(), IrFault>(IrFault::AlreadyDefined { func, name: m.names[f] })
                        && final(self)@ == m
                } else {
                    r is Ok && final(self)@ == (ModuleModel {
                        bodies: m.bodies.update(f, Some(body)),
                        ..m
                    })
                }
            }),
            final(self).wf(),
    {
        let i = func.index();
        let declared = &self.sigs[i];
        let given = body.sig_ref();
        let matches = types_eq(given.params.as_slice(), declared.params.as_slice()) && types_eq(
            given.returns.as_slice(),
            declared.returns.as_slice(),
        );
        if !matches {
            return Err(IrError::SignatureMismatch { func, name: self.names[i].clone() });
        }
        if self.funcs[i].is_some() {
            return Err(IrError::AlreadyDefined { func, name: self.names[i].clone() });
        }
        self.funcs.set(i, Some(body));
        Ok(())
    }

    /// The function execution begins at.
    pub fn set_entry(&mut self, func: Func)
        ensures
            final(self)@ == (ModuleModel { entry: Some(func), ..old(self)@ }),
    {
        self.entry = Some(func);
    }

    pub fn entry(&self) -> (r: Option<Func>)
        ensures
            r == self@.entry,
    {
        self.entry
    }

    pub fn signature(&self, func: Func) -> (r: &Signature)
        requires
            self.wf(),
            (func.0 as int) < self@.names.len(),
        ensures
            *r == self@.sigs[func.0 as int],
    {
        &self.sigs[func.index()]
    }

    pub fn name(&self, func: Func) -> (r: &str)
        requires
            self.wf(),
            (func.0 as int) < self@.names.len(),
        ensures
            r@ == self@.names[func.0 as int],
    {
        self.names[func.index()].as_str()
    }

    /// The body, or `None` if only declared.
    pub fn get(&self, func: Func) -> (r: Option<&Function>)
        requires
            self.wf(),
            (func.0 as int) < self@.names.len(),
        ensures
            match r {
                Some(f) => self@.bodies[func.0 as int] == Some(*f),
                None => self@.bodies[func.0 as int] is None,
            },
    {
        match &self.funcs[func.index()] {
            Some(f) => Some(f),
            None => None,
        }
    }

    /// The body, mutably, or `None` if only declared.
    pub fn get_mut(&mut self, func: Func) -> (r: Option<&mut Function>)
        requires
            old(self).wf(),
            (func.0 as int) < old(self)@.names.len(),
        ensures
            match r {
                Some(f) => {
                    &&& old(self)@.bodies[func.0 as int] == Some(*f)
                    &&& final(self)@ == (ModuleModel {
                        bodies: old(self)@.bodies.update(func.0 as int, Some(*final(f))),
                        ..old(self)@
                    })
                },
                None => old(self)@.bodies[func.0 as int] is None && final(self)@ == old(self)@,
            },
            final(self).wf(),
    {
        let i = func.index();
        if self.funcs[i].is_none() {
            return None;
        }
        self.funcs[i].as_mut()
    }

    pub fn len(&self) -> (r: usize)
        ensures
            r == self@.names.len(),
    {
        self.names.len()
    }

    pub fn is_empty(&self) -> (r: bool)
        ensures
            r == (self@.names.len() == 0),
    {
        self.names.len() == 0
    }

    /// Every declared function, in declaration order.
    pub fn funcs(&self) -> (r: Vec<Func>)
        requires
            self.wf(),
        ensures
            r@ == Seq::new(self@.names.len(), |k: int| Func(k as u32)),
    {
        let mut out: Vec<Func> = Vec::new();
        let mut k: usize = 0;
        while k < self.names.len()
            invariant
                self.wf(),
                k <= self@.names.len(),
                out@ == Seq::new(k as nat, |j: int| Func(j as u32)),
            decreases self@.names.len() - k,
        {
            out.push(Func::new(k));
            k += 1;
            assert(out@ =~= Seq::new(k as nat, |j: int| Func(j as u32)));
        }
        out
    }

    pub fn has_func(&self, func: Func) -> (r: bool)
        ensures
            r == ((func.0 as int) < self@.names.len()),
    {
        func.index() < self.names.len()
    }

    /// Whether every declaration has a body and an entry point is set.
    pub fn verify(&self) -> (r: Result<(), IrError>)
        requires
            self.wf(),
        ensures
            ir_result(r) == self@.verify(),
    {
        let mut k: usize = 0;
        while k < self.funcs.len()
            invariant
                self.wf(),
                k <= self@.bodies.len(),
                self@.first_undefined(0) == self@.first_undefined(k as int),
            decreases self@.bodies.len() - k,
        {
            if self.funcs[k].is_none() {
                return Err(IrError::Undefined { func: Func::new(k), name: self.names[k].clone() });
            }
            k += 1;
        }
        if self.entry.is_none() {
            return Err(IrError::NoEntry);
        }
        Ok(())
    }
}

} // verus!
