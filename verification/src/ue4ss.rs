//! Models of the host-framework interface: the engine's string record, the
//! size alignment its allocator expects, and the registration record a mod
//! hands the framework at startup.
//!
//! The framework itself is a foreign DLL; resolving its symbols and boxing
//! the registration record for it happen outside this crate.

use vstd::prelude::*;

use crate::cxxstd::CxxString;
use crate::wide::{decode_utf16, encode_utf16, utf16_decode, utf16_encode};

verus! {

/// `size` rounded up to the next multiple of `alignment`.
pub open spec fn spec_align_to(size: int, alignment: int) -> int
    recommends
        alignment > 0,
{
    if size % alignment == 0 {
        size
    } else {
        size + alignment - size % alignment
    }
}

/// Rounds an allocation size up to the next multiple of the alignment: the
/// smallest aligned value at or above `size`.
pub fn align_to(size: usize, alignment: usize) -> (r: usize)
    requires
        alignment > 0,
        size + alignment <= usize::MAX,
    ensures
        r == spec_align_to(size as int, alignment as int),
        size <= r < size + alignment,
        r as int % alignment as int == 0,
{
    proof {
        vstd::arithmetic::div_mod::lemma_fundamental_div_mod(size as int, alignment as int);
        vstd::arithmetic::div_mod::lemma_mod_division_less_than_divisor(
            size as int,
            alignment as int,
        );
        if size as int % alignment as int != 0 {
            let q = size as int / alignment as int;
            assert(size + alignment - size as int % alignment as int == (q + 1) * (
            alignment as int)) by (nonlinear_arith)
                requires
                    size as int == alignment as int * q + size as int % alignment as int,
            ;
            vstd::arithmetic::div_mod::lemma_mod_multiples_basic(q + 1, alignment as int);
        }
    }
    if size % alignment == 0 {
        size
    } else {
        size + (alignment - size % alignment)
    }
}

/// The engine's string record: a wide-character buffer, the unit count
/// including the terminator, and the allocation capacity.
pub struct FString {
    pub units: Vec<u16>,
    pub size: u32,
    pub capacity: u32,
}

impl View for FString {
    type V = Seq<u16>;

    closed spec fn view(&self) -> Seq<u16> {
        self.units@
    }
}

impl FString {
    /// The record's length prefix counts the content units plus the
    /// terminator; an empty record carries no buffer at all.
    pub open spec fn wf(&self) -> bool {
        if self.size == 0 {
            self@.len() == 0
        } else {
            self@.len() == self.size - 1
        }
    }

    /// An empty record, the shape handed to the engine to fill in.
    pub fn empty() -> (r: FString)
        ensures
            r@ == Seq::<u16>::empty(),
            r.size == 0,
            r.capacity == 0,
            r.wf(),
    {
        let r = FString { units: Vec::new(), size: 0, capacity: 0 };
        proof {
            assert(r@ =~= Seq::<u16>::empty());
        }
        r
    }

    /// Encodes a host string into an engine record: the wide content, a
    /// terminator-inclusive length, and a capacity aligned to four units
    /// for the foreign allocator. `None` when the length prefix would not
    /// fit its field.
    pub fn from_str(s: &str) -> (r: Option<FString>)
        ensures
            match r {
                Some(f) => {
                    &&& f@ == utf16_encode(s@)
                    &&& f.size == f@.len() + 1
                    &&& f.capacity == spec_align_to(f@.len() as int + 1, 4)
                    &&& f.wf()
                },
                None => utf16_encode(s@).len() > u32::MAX - 8,
            },
    {
        let units = encode_utf16(s);
        if units.len() > (u32::MAX - 8) as usize {
            return None;
        }
        let size = (units.len() + 1) as u32;
        let capacity = align_to(units.len() + 1, 4) as u32;
        Some(FString { units, size, capacity })
    }

    /// Decodes an engine record back into a host string: the empty record
    /// gives the empty string without reading any buffer, and invalid
    /// units give `None`.
    pub fn string(&self) -> (r: Option<String>)
        requires
            self.wf(),
        ensures
            match r {
                Some(t) => utf16_decode(self@) == Some(t@),
                None => utf16_decode(self@) is None,
            },
    {
        if self.size == 0 {
            proof {
                assert(self@ =~= Seq::<u16>::empty());
            }
            return Some(String::new());
        }
        match decode_utf16(self.units.as_slice()) {
            Some(chars) => Some(crate::strutil::string_from_chars(&chars)),
            None => None,
        }
    }
}

/// The address of a framework callback taking the mod record.
#[derive(Clone, Copy, PartialEq, Eq, Structural, Debug)]
pub struct ModCallback {
    pub addr: u64,
}

impl Default for ModCallback {
    /// The framework's no-op callback slot.
    fn default() -> (r: Self)
        ensures
            r.addr == 0,
    {
        ModCallback { addr: 0 }
    }
}

/// The address of a framework callback taking the mod record and a string.
#[derive(Clone, Copy, PartialEq, Eq, Structural, Debug)]
pub struct StringModCallback {
    pub addr: u64,
}

impl Default for StringModCallback {
    /// The framework's no-op callback slot.
    fn default() -> (r: Self)
        ensures
            r.addr == 0,
    {
        StringModCallback { addr: 0 }
    }
}

/// The address of a framework callback taking no arguments.
#[derive(Clone, Copy, PartialEq, Eq, Structural, Debug)]
pub struct LuaModCallback {
    pub addr: u64,
}

impl Default for LuaModCallback {
    /// The framework's no-op callback slot.
    fn default() -> (r: Self)
        ensures
            r.addr == 0,
    {
        LuaModCallback { addr: 0 }
    }
}

/// The callback table a mod registers with the framework, one slot per
/// lifecycle event.
#[derive(Clone, Copy, PartialEq, Eq, Structural, Debug)]
pub struct Vtable {
    pub destructor: ModCallback,
    pub on_update: ModCallback,
    pub on_unreal_init: ModCallback,
    pub on_ui_init: ModCallback,
    pub on_program_start: ModCallback,
    pub on_lua_start: LuaModCallback,
    pub on_lua_start2: LuaModCallback,
    pub on_lua_stop: LuaModCallback,
    pub on_lua_stop2: LuaModCallback,
    pub on_dll_load: StringModCallback,
    pub render_tab: ModCallback,
}

impl Default for Vtable {
    /// Every slot set to the no-op callback.
    fn default() -> (r: Self)
        ensures
            r == (Vtable {
                destructor: ModCallback { addr: 0 },
                on_update: ModCallback { addr: 0 },
                on_unreal_init: ModCallback { addr: 0 },
                on_ui_init: ModCallback { addr: 0 },
                on_program_start: ModCallback { addr: 0 },
                on_lua_start: LuaModCallback { addr: 0 },
                on_lua_start2: LuaModCallback { addr: 0 },
                on_lua_stop: LuaModCallback { addr: 0 },
                on_lua_stop2: LuaModCallback { addr: 0 },
                on_dll_load: StringModCallback { addr: 0 },
                render_tab: ModCallback { addr: 0 },
            }),
    {
        Vtable {
            destructor: ModCallback { addr: 0 },
            on_update: ModCallback { addr: 0 },
            on_unreal_init: ModCallback { addr: 0 },
            on_ui_init: ModCallback { addr: 0 },
            on_program_start: ModCallback { addr: 0 },
            on_lua_start: LuaModCallback { addr: 0 },
            on_lua_start2: LuaModCallback { addr: 0 },
            on_lua_stop: LuaModCallback { addr: 0 },
            on_lua_stop2: LuaModCallback { addr: 0 },
            on_dll_load: StringModCallback { addr: 0 },
            render_tab: ModCallback { addr: 0 },
        }
    }
}

/// The registration record a mod hands the framework: its callback table
/// and its descriptive strings, all in the foreign string form.
pub struct CppUserModBase {
    pub vtable: Vtable,
    pub mod_name: CxxString,
    pub mod_version: CxxString,
    pub mod_description: CxxString,
    pub mod_authors: CxxString,
    pub mod_intended_sdk_version: CxxString,
}

impl CppUserModBase {
    /// Builds the registration record from the mod's descriptive strings,
    /// each stored in its foreign wide form.
    pub fn build(vtable: Vtable, name: &str, version: &str, description: &str, authors: &str)
        -> (r: CppUserModBase)
        ensures
            r.vtable == vtable,
            r.mod_name@ == utf16_encode(name@),
            r.mod_version@ == utf16_encode(version@),
            r.mod_description@ == utf16_encode(description@),
            r.mod_authors@ == utf16_encode(authors@),
            r.mod_intended_sdk_version@ == Seq::<u16>::empty(),
    {
        CppUserModBase {
            vtable,
            mod_name: CxxString::from_str(name),
            mod_version: CxxString::from_str(version),
            mod_description: CxxString::from_str(description),
            mod_authors: CxxString::from_str(authors),
            mod_intended_sdk_version: CxxString::new(),
        }
    }
}

} // verus!
