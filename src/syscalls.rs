//! The catalog of syscall signatures, and the decoder that renders one trace
//! stop with it.

use vstd::prelude::*;
use std::collections::HashMap;
use crate::text::{push_text, push_decimal, push_hex, same_text, decimal_text, hex_text};

verus! {

broadcast use vstd::std_specs::hash::group_hash_axioms;

/// The registers of a stopped process that decoding reads.
#[derive(PartialEq, Eq, Structural, Clone, Copy, Debug)]
pub struct RegisterFrame {
    /// The syscall number, kept from the entry stop.
    pub orig_rax: u64,
    /// The accumulator: the return value at an exit stop.
    pub rax: u64,
    pub rbx: u64,
    pub rdi: u64,
    pub rsi: u64,
    pub rdx: u64,
    pub r10: u64,
    pub r8: u64,
    pub r9: u64,
    pub rip: u64,
}

/// The registers that a catalog entry may name for an argument.
#[derive(PartialEq, Eq, Structural, Clone, Copy, Debug)]
pub enum Register {
    OrigRax,
    Rbx,
    Rdi,
    Rsi,
    Rdx,
    R10,
    R8,
    R9,
}

/// The register that a catalog entry's register name stands for. The name
/// `rax` reads the syscall number kept from the entry stop.
pub open spec fn register_named(name: Seq<char>) -> Option<Register> {
    if name == "rax"@ { Some(Register::OrigRax) }
    else if name == "rbx"@ { Some(Register::Rbx) }
    else if name == "rdi"@ { Some(Register::Rdi) }
    else if name == "rsi"@ { Some(Register::Rsi) }
    else if name == "rdx"@ { Some(Register::Rdx) }
    else if name == "r10"@ { Some(Register::R10) }
    else if name == "r8"@ { Some(Register::R8) }
    else if name == "r9"@ { Some(Register::R9) }
    else { None }
}

impl RegisterFrame {
    pub open spec fn spec_read(self, r: Register) -> u64 {
        match r {
            Register::OrigRax => self.orig_rax,
            Register::Rbx => self.rbx,
            Register::Rdi => self.rdi,
            Register::Rsi => self.rsi,
            Register::Rdx => self.rdx,
            Register::R10 => self.r10,
            Register::R8 => self.r8,
            Register::R9 => self.r9,
        }
    }

    /// The value of the register that `name` stands for; zero where the
    /// name stands for none of them.
    pub open spec fn spec_value_of(self, name: Seq<char>) -> u64 {
        match register_named(name) {
            Some(r) => self.spec_read(r),
            None => 0,
        }
    }

    pub fn read(&self, r: Register) -> (v: u64)
        ensures
            v == self.spec_read(r),
    {
        match r {
            Register::OrigRax => self.orig_rax,
            Register::Rbx => self.rbx,
            Register::Rdi => self.rdi,
            Register::Rsi => self.rsi,
            Register::Rdx => self.rdx,
            Register::R10 => self.r10,
            Register::R8 => self.r8,
            Register::R9 => self.r9,
        }
    }

    pub fn value_of(&self, name: &str) -> (v: u64)
        ensures
            v == self.spec_value_of(name@),
    {
        match register_of(name) {
            Some(r) => self.read(r),
            None => 0,
        }
    }
}

pub fn register_of(name: &str) -> (r: Option<Register>)
    ensures
        r == register_named(name@),
{
    if same_text(name, "rax") { Some(Register::OrigRax) }
    else if same_text(name, "rbx") { Some(Register::Rbx) }
    else if same_text(name, "rdi") { Some(Register::Rdi) }
    else if same_text(name, "rsi") { Some(Register::Rsi) }
    else if same_text(name, "rdx") { Some(Register::Rdx) }
    else if same_text(name, "r10") { Some(Register::R10) }
    else if same_text(name, "r8") { Some(Register::R8) }
    else if same_text(name, "r9") { Some(Register::R9) }
    else { None }
}

/// One argument of a syscall: its name, its declared C type, and the
/// register that carries it.
#[derive(Debug, Clone)]
pub struct SyscallArgument {
    pub name: String,
    pub arg_type: String,
    pub register: String,
}

#[derive(Debug, Clone)]
pub struct SyscallReturn {
    pub name: String,
    pub ret_type: String,
}

/// A catalog entry; once looked up, it also holds the registers it was
/// looked up with.
#[derive(Debug, Clone)]
pub struct Syscall {
    pub name: String,
    pub number: u64,
    pub arguments: Vec<SyscallArgument>,
    pub return_type: SyscallReturn,
    pub captured_regs: Option<RegisterFrame>,
    pub is_memory_syscall: bool,
}

pub struct ArgumentModel {
    pub name: Seq<char>,
    pub arg_type: Seq<char>,
    pub register: Seq<char>,
}

/// What a catalog entry says of a syscall.
pub struct SyscallModel {
    pub name: Seq<char>,
    pub number: u64,
    pub arguments: Seq<ArgumentModel>,
    pub ret_name: Seq<char>,
    pub ret_type: Seq<char>,
    pub is_memory: bool,
}

impl SyscallArgument {
    pub open spec fn model(&self) -> ArgumentModel {
        ArgumentModel { name: self.name@, arg_type: self.arg_type@, register: self.register@ }
    }

    pub fn duplicate(&self) -> (r: SyscallArgument)
        ensures
            r.model() == self.model(),
    {
        SyscallArgument {
            name: self.name.clone(),
            arg_type: self.arg_type.clone(),
            register: self.register.clone(),
        }
    }
}

impl Syscall {
    pub open spec fn model(&self) -> SyscallModel {
        SyscallModel {
            name: self.name@,
            number: self.number,
            arguments: self.arguments@.map_values(|a: SyscallArgument| a.model()),
            ret_name: self.return_type.name@,
            ret_type: self.return_type.ret_type@,
            is_memory: self.is_memory_syscall,
        }
    }

    pub fn duplicate(&self) -> (r: Syscall)
        ensures
            r.model() == self.model(),
            r.captured_regs == self.captured_regs,
    {
        let mut arguments: Vec<SyscallArgument> = Vec::new();
        let mut i: usize = 0;
        while i < self.arguments.len()
            invariant
                i <= self.arguments@.len(),
                arguments@.len() == i,
                forall|j: int|
                    0 <= j < i ==> (#[trigger] arguments@[j]).model() == self.arguments@[j].model(),
            decreases self.arguments@.len() - i,
        {
            arguments.push(self.arguments[i].duplicate());
            i = i + 1;
        }
        assert(arguments@.map_values(|a: SyscallArgument| a.model()) =~= self.arguments@.map_values(
            |a: SyscallArgument| a.model(),
        ));
        Syscall {
            name: self.name.clone(),
            number: self.number,
            arguments,
            return_type: SyscallReturn {
                name: self.return_type.name.clone(),
                ret_type: self.return_type.ret_type.clone(),
            },
            captured_regs: self.captured_regs,
            is_memory_syscall: self.is_memory_syscall,
        }
    }

    /// The invocation as one line: each argument as `name(type) = value`,
    /// then the return value.
    pub fn render(&self) -> (r: String)
        requires
            self.captured_regs is Some,
        ensures
            r@ == invocation_text(self.model(), self.captured_regs->Some_0),
    {
        let frame = self.captured_regs.unwrap();
        let mut out = String::new();
        push_text(&mut out, self.name.as_str());
        push_text(&mut out, "(");
        let ghost args = self.model().arguments;
        let mut i: usize = 0;
        while i < self.arguments.len()
            invariant
                i <= self.arguments@.len(),
                args == self.model().arguments,
                args.len() == self.arguments@.len(),
                out@ == self.name@ + "("@ + arguments_text(args.subrange(0, i as int), frame),
            decreases self.arguments@.len() - i,
        {
            let a = &self.arguments[i];
            if i > 0 {
                push_text(&mut out, ", ");
            }
            push_argument(&mut out, a, &frame);
            proof {
                assert(args.subrange(0, i + 1).drop_last() =~= args.subrange(0, i as int));
                assert(args[i as int] == a.model());
            }
            i = i + 1;
        }
        assert(args.subrange(0, i as int) =~= args);
        push_text(&mut out, ") = ");
        push_decimal(&mut out, frame.rax);
        proof {
            assert(out@ =~= invocation_text(self.model(), frame));
        }
        out
    }
}

/// Whether a declared type is a pointer type: it ends in `*`.
pub open spec fn is_pointer_type(t: Seq<char>) -> bool {
    t.len() > 0 && t.last() == '*'
}

pub fn is_pointer(t: &str) -> (r: bool)
    ensures
        r == is_pointer_type(t@),
{
    let n = t.unicode_len();
    n > 0 && t.get_char(n - 1) == '*'
}

/// One argument as `name(type) = value`: in hexadecimal for a pointer, in
/// decimal otherwise.
pub open spec fn argument_text(a: ArgumentModel, frame: RegisterFrame) -> Seq<char> {
    let v = frame.spec_value_of(a.register) as nat;
    a.name + "("@ + a.arg_type + ") = "@ + if is_pointer_type(a.arg_type) {
        hex_text(v)
    } else {
        decimal_text(v)
    }
}

/// The arguments, in order, separated by `, `.
pub open spec fn arguments_text(args: Seq<ArgumentModel>, frame: RegisterFrame) -> Seq<char>
    decreases args.len(),
{
    if args.len() == 0 {
        Seq::empty()
    } else if args.len() == 1 {
        argument_text(args[0], frame)
    } else {
        arguments_text(args.drop_last(), frame) + ", "@ + argument_text(args.last(), frame)
    }
}

/// `name(arguments) = return value`, the return value in decimal.
pub open spec fn invocation_text(s: SyscallModel, frame: RegisterFrame) -> Seq<char> {
    s.name + "("@ + arguments_text(s.arguments, frame) + ") = "@ + decimal_text(frame.rax as nat)
}

fn push_argument(out: &mut String, a: &SyscallArgument, frame: &RegisterFrame)
    ensures
        final(out)@ == old(out)@ + argument_text(a.model(), *frame),
{
    let v = frame.value_of(a.register.as_str());
    push_text(out, a.name.as_str());
    push_text(out, "(");
    push_text(out, a.arg_type.as_str());
    push_text(out, ") = ");
    if is_pointer(a.arg_type.as_str()) {
        push_hex(out, v);
    } else {
        push_decimal(out, v);
    }
    assert(final(out)@ =~= old(out)@ + argument_text(a.model(), *frame));
}

/// The entries of a list of definitions, each tagged with its class.
pub open spec fn tagged(defs: Seq<SyscallModel>, memory: bool) -> Seq<SyscallModel> {
    defs.map_values(
        |d: SyscallModel|
            SyscallModel {
                name: d.name,
                number: d.number,
                arguments: d.arguments,
                ret_name: d.ret_name,
                ret_type: d.ret_type,
                is_memory: memory,
            },
    )
}

/// `m` with each entry of `defs` put under its number, in order: a later
/// entry replaces an earlier one with the same number.
pub open spec fn insert_all(m: Map<u64, SyscallModel>, defs: Seq<SyscallModel>) -> Map<
    u64,
    SyscallModel,
>
    decreases defs.len(),
{
    if defs.len() == 0 {
        m
    } else {
        insert_all(m, defs.drop_last()).insert(defs.last().number, defs.last())
    }
}

/// The entries of both classes in load order: memory calls first, tagged as
/// such, then file and socket calls.
pub open spec fn catalog_entries(memory: Seq<SyscallModel>, io: Seq<SyscallModel>) -> Seq<
    SyscallModel,
> {
    tagged(memory, true) + tagged(io, false)
}

/// The catalog built from the two lists of definitions.
pub open spec fn catalog_of(memory: Seq<SyscallModel>, io: Seq<SyscallModel>) -> Map<
    u64,
    SyscallModel,
> {
    insert_all(Map::empty(), catalog_entries(memory, io))
}

pub open spec fn models(defs: Seq<Syscall>) -> Seq<SyscallModel> {
    defs.map_values(|s: Syscall| s.model())
}

proof fn lemma_insert_all_concat(m: Map<u64, SyscallModel>, a: Seq<SyscallModel>, b: Seq<SyscallModel>)
    ensures
        insert_all(insert_all(m, a), b) == insert_all(m, a + b),
    decreases b.len(),
{
    if b.len() == 0 {
        assert(a + b =~= a);
    } else {
        lemma_insert_all_concat(m, a, b.drop_last());
        assert((a + b).drop_last() =~= a + b.drop_last());
    }
}

/// The numbers that `insert_all` adds are those of the entries.
proof fn lemma_insert_all_keys(m: Map<u64, SyscallModel>, defs: Seq<SyscallModel>, n: u64)
    ensures
        insert_all(m, defs).contains_key(n) <==> m.contains_key(n) || exists|i: int|
            0 <= i < defs.len() && (#[trigger] defs[i]).number == n,
    decreases defs.len(),
{
    if defs.len() > 0 {
        lemma_insert_all_keys(m, defs.drop_last(), n);
        if insert_all(m, defs).contains_key(n) && !m.contains_key(n) && n != defs.last().number {
            let i = choose|i: int| 0 <= i < defs.drop_last().len() && (#[trigger] defs.drop_last()[i]).number == n;
            assert(defs[i].number == n);
        }
        if exists|i: int| 0 <= i < defs.len() && (#[trigger] defs[i]).number == n {
            let i = choose|i: int| 0 <= i < defs.len() && (#[trigger] defs[i]).number == n;
            if i < defs.len() - 1 {
                assert(defs.drop_last()[i].number == n);
            }
        }
    }
}

/// An entry that no later entry replaces is what its number maps to.
proof fn lemma_insert_all_last_wins(m: Map<u64, SyscallModel>, defs: Seq<SyscallModel>, i: int)
    requires
        0 <= i < defs.len(),
        forall|j: int| i < j < defs.len() ==> (#[trigger] defs[j]).number != defs[i].number,
    ensures
        insert_all(m, defs).contains_key(defs[i].number),
        insert_all(m, defs)[defs[i].number] == defs[i],
    decreases defs.len(),
{
    if i < defs.len() - 1 {
        assert(defs.drop_last()[i] == defs[i]);
        assert forall|j: int| i < j < defs.drop_last().len() implies (
        #[trigger] defs.drop_last()[j]).number != defs.drop_last()[i].number by {
            assert(defs.drop_last()[j] == defs[j]);
        }
        lemma_insert_all_last_wins(m, defs.drop_last(), i);
    }
}

/// Decoding finds each definition under its number: where no later
/// definition has the same number, the catalog maps that number to it, with
/// the class it came from.
pub proof fn lemma_catalog_finds_definition(
    memory: Seq<SyscallModel>,
    io: Seq<SyscallModel>,
    i: int,
)
    requires
        0 <= i < catalog_entries(memory, io).len(),
        forall|j: int|
            i < j < catalog_entries(memory, io).len() ==> (#[trigger] catalog_entries(
                memory,
                io,
            )[j]).number != catalog_entries(memory, io)[i].number,
    ensures
        catalog_of(memory, io).contains_key(catalog_entries(memory, io)[i].number),
        catalog_of(memory, io)[catalog_entries(memory, io)[i].number] == catalog_entries(
            memory,
            io,
        )[i],
{
    lemma_insert_all_last_wins(Map::empty(), catalog_entries(memory, io), i);
}

/// A number that no definition of either list has is not in the catalog, so
/// decoding a frame with it gives nothing.
pub proof fn lemma_catalog_lacks_unknown(memory: Seq<SyscallModel>, io: Seq<SyscallModel>, n: u64)
    requires
        forall|i: int| 0 <= i < memory.len() ==> (#[trigger] memory[i]).number != n,
        forall|i: int| 0 <= i < io.len() ==> (#[trigger] io[i]).number != n,
    ensures
        !catalog_of(memory, io).contains_key(n),
{
    let all = catalog_entries(memory, io);
    lemma_insert_all_keys(Map::empty(), all, n);
    assert forall|i: int| 0 <= i < all.len() implies (#[trigger] all[i]).number != n by {
        if i < memory.len() {
            assert(all[i].number == memory[i].number);
        } else {
            assert(all[i].number == io[i - memory.len()].number);
        }
    }
}

/// The syscall catalog: each known syscall number with its entry.
#[derive(Debug, Clone)]
pub struct SyscallTable {
    lookup_table: HashMap<u64, Syscall>,
}

impl View for SyscallTable {
    type V = Map<u64, SyscallModel>;

    closed spec fn view(&self) -> Map<u64, SyscallModel> {
        self.lookup_table@.map_values(|s: Syscall| s.model())
    }
}

/// Building from the same two lists always gives the same catalog, of the
/// same size.
pub proof fn lemma_build_deterministic(
    t1: SyscallTable,
    t2: SyscallTable,
    memory: Seq<SyscallModel>,
    io: Seq<SyscallModel>,
)
    requires
        t1@ == catalog_of(memory, io),
        t2@ == catalog_of(memory, io),
    ensures
        t1@ == t2@,
        t1@.len() == t2@.len(),
        forall|n: u64| #[trigger] t1@.contains_key(n) ==> t2@.contains_key(n) && t1@[n] == t2@[n],
{
}

fn insert_definitions(table: &mut HashMap<u64, Syscall>, defs: &Vec<Syscall>, memory: bool)
    ensures
        final(table)@.map_values(|s: Syscall| s.model()) == insert_all(
            old(table)@.map_values(|s: Syscall| s.model()),
            tagged(models(defs@), memory),
        ),
{
    let ghost start = old(table)@.map_values(|s: Syscall| s.model());
    let ghost ds = tagged(models(defs@), memory);
    let mut i: usize = 0;
    while i < defs.len()
        invariant
            i <= defs@.len(),
            ds == tagged(models(defs@), memory),
            ds.len() == defs@.len(),
            table@.map_values(|s: Syscall| s.model()) == insert_all(start, ds.subrange(0, i as int)),
        decreases defs@.len() - i,
    {
        let mut s = defs[i].duplicate();
        s.is_memory_syscall = memory;
        s.captured_regs = None;
        let ghost before = table@;
        table.insert(s.number, s);
        proof {
            assert(ds.subrange(0, i + 1).drop_last() =~= ds.subrange(0, i as int));
            assert(ds[i as int] == s.model());
            assert(table@.map_values(|s: Syscall| s.model()) =~= before.map_values(
                |s: Syscall| s.model(),
            ).insert(s.number, s.model()));
        }
        i = i + 1;
    }
    assert(ds.subrange(0, i as int) =~= ds);
}

impl SyscallTable {
    /// Builds the catalog from the memory-management definitions, then the
    /// file and socket definitions; an entry replaces an earlier one with the
    /// same number.
    pub fn build(memory: &Vec<Syscall>, io: &Vec<Syscall>) -> (r: SyscallTable)
        ensures
            r@ == catalog_of(models(memory@), models(io@)),
    {
        let mut lookup_table: HashMap<u64, Syscall> = HashMap::new();
        assert(lookup_table@.map_values(|s: Syscall| s.model()) =~= Map::empty());
        insert_definitions(&mut lookup_table, memory, true);
        insert_definitions(&mut lookup_table, io, false);
        proof {
            lemma_insert_all_concat(
                Map::empty(),
                tagged(models(memory@), true),
                tagged(models(io@), false),
            );
        }
        SyscallTable { lookup_table }
    }

    /// The entry for the syscall number that `regs` kept from the entry
    /// stop, holding those registers; nothing where the number is unknown.
    pub fn lookup(&self, regs: RegisterFrame) -> (r: Option<Syscall>)
        ensures
            match r {
                None => !self@.contains_key(regs.orig_rax),
                Some(s) => {
                    &&& self@.contains_key(regs.orig_rax)
                    &&& s.model() == self@[regs.orig_rax]
                    &&& s.captured_regs == Some(regs)
                },
            },
    {
        match self.lookup_table.get(&regs.orig_rax) {
            None => None,
            Some(t) => {
                let mut s = t.duplicate();
                s.captured_regs = Some(regs);
                Some(s)
            },
        }
    }

    /// How many syscalls the catalog knows.
    pub fn len(&self) -> (n: usize)
        ensures
            n == self@.len(),
    {
        assert(self@.dom() =~= self.lookup_table@.dom());
        self.lookup_table.len()
    }
}

/// Builds the catalog that a trace session decodes with.
pub fn gen_syscalls_table(memory: &Vec<Syscall>, io: &Vec<Syscall>) -> (r: SyscallTable)
    ensures
        r@ == catalog_of(models(memory@), models(io@)),
{
    SyscallTable::build(memory, io)
}

/// Decodes the registers of an exit stop: the entry for the syscall number
/// kept from the entry stop, rendered with the argument and return values;
/// nothing for a number the catalog lacks.
pub fn decode(frame: RegisterFrame, catalog: &SyscallTable) -> (r: Option<String>)
    ensures
        match r {
            None => !catalog@.contains_key(frame.orig_rax),
            Some(t) => catalog@.contains_key(frame.orig_rax) && t@ == invocation_text(
                catalog@[frame.orig_rax],
                frame,
            ),
        },
{
    match catalog.lookup(frame) {
        None => None,
        Some(s) => Some(s.render()),
    }
}

} // verus!
