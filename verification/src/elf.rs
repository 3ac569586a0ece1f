//! Classification of an ELF binary by the byte patterns it carries:
//! which toolchain linked it, which language its symbols suggest, and
//! which compiler signatures are embedded in the image.
//!
//! Parsing the container format is the ELF library's work, behind one
//! trusted wrapper that hands back the symbol names as plain byte
//! strings; everything decided about those bytes is verified here.

use vstd::prelude::*;

verus! {

/// `needle` occurs contiguously somewhere in `hay`.
pub open spec fn has_sub(hay: Seq<u8>, needle: Seq<u8>) -> bool {
    exists|k: int|
        0 <= k && k + needle.len() <= hay.len() && #[trigger] hay.subrange(
            k,
            k + needle.len() as int,
        ) == needle
}

/// Byte-string search: whether `needle` occurs contiguously in `hay`.
#[verifier::loop_isolation(false)]
pub fn contains_bytes(hay: &[u8], needle: &[u8]) -> (r: bool)
    ensures
        r == has_sub(hay@, needle@),
{
    let n = needle.len();
    let h = hay.len();
    if n == 0 {
        proof {
            assert(hay@.subrange(0, 0 + needle@.len() as int) =~= needle@);
        }
        return true;
    }
    if n > h {
        return false;
    }
    let mut k: usize = 0;
    while k <= h - n
        invariant
            0 < n <= h,
            k <= h - n + 1,
            forall|k2: int|
                0 <= k2 < k ==> #[trigger] hay@.subrange(k2, k2 + needle@.len() as int)
                    != needle@,
        decreases h - n + 1 - k,
    {
        let mut j: usize = 0;
        while j < n && hay[k + j] == needle[j]
            invariant
                j <= n,
                k + n <= h,
                forall|j2: int| 0 <= j2 < j ==> hay@[k + j2] == needle@[j2],
            decreases n - j,
        {
            j += 1;
        }
        if j == n {
            proof {
                assert(hay@.subrange(k as int, k as int + n as int) =~= needle@);
            }
            return true;
        }
        proof {
            assert(hay@.subrange(k as int, k as int + n as int)[j as int] == hay@[k + j]);
            assert(hay@.subrange(k as int, k as int + n as int) != needle@);
        }
        k += 1;
    }
    proof {
        assert forall|k2: int|
            0 <= k2 && k2 + needle@.len() <= hay@.len() implies #[trigger] hay@.subrange(
            k2,
            k2 + needle@.len() as int,
        ) != needle@ by {
            assert(k2 < k);
        }
    }
    false
}

/// The bytes of "GNU ld".
pub open spec fn sig_gnu_ld() -> Seq<u8> {
    seq![71u8, 78u8, 85u8, 32u8, 108u8, 100u8]
}

/// The bytes of "clang".
pub open spec fn sig_clang() -> Seq<u8> {
    seq![99u8, 108u8, 97u8, 110u8, 103u8]
}

/// The bytes of "rustc".
pub open spec fn sig_rustc() -> Seq<u8> {
    seq![114u8, 117u8, 115u8, 116u8, 99u8]
}

/// The bytes of "rust".
pub open spec fn pat_rust() -> Seq<u8> {
    seq![114u8, 117u8, 115u8, 116u8]
}

/// The bytes of "gcc".
pub open spec fn pat_gcc() -> Seq<u8> {
    seq![103u8, 99u8, 99u8]
}

/// The bytes of "std::".
pub open spec fn pat_cpp_std() -> Seq<u8> {
    seq![115u8, 116u8, 100u8, 58u8, 58u8]
}

/// The bytes of "cxx".
pub open spec fn pat_cxx() -> Seq<u8> {
    seq![99u8, 120u8, 120u8]
}

/// The bytes of "_go".
pub open spec fn pat_go() -> Seq<u8> {
    seq![95u8, 103u8, 111u8]
}

/// The bytes of "runtime.main".
pub open spec fn pat_runtime_main() -> Seq<u8> {
    seq![114u8, 117u8, 110u8, 116u8, 105u8, 109u8, 101u8, 46u8, 109u8, 97u8, 105u8, 110u8]
}

/// The bytes of "Py_".
pub open spec fn pat_py() -> Seq<u8> {
    seq![80u8, 121u8, 95u8]
}

/// The bytes of "python".
pub open spec fn pat_python() -> Seq<u8> {
    seq![112u8, 121u8, 116u8, 104u8, 111u8, 110u8]
}

/// The mathematical image of a row of byte strings.
pub open spec fn names_model(s: Seq<Vec<u8>>) -> Seq<Seq<u8>> {
    s.map_values(|v: Vec<u8>| v@)
}

/// The mathematical image of a row of labels.
pub open spec fn labels_model(s: Seq<String>) -> Seq<Seq<char>> {
    s.map_values(|x: String| x@)
}

/// The language one symbol name suggests, if any: C++ marks beat Go
/// marks beat Python marks.
pub open spec fn lang_of(name: Seq<u8>) -> Option<Seq<char>> {
    if has_sub(name, pat_cpp_std()) || has_sub(name, pat_cxx()) {
        Some("C++"@)
    } else if has_sub(name, pat_go()) || has_sub(name, pat_runtime_main()) {
        Some("Go"@)
    } else if has_sub(name, pat_py()) || has_sub(name, pat_python()) {
        Some("Python (C API)"@)
    } else {
        None
    }
}

/// The language the symbol table suggests: the first symbol that
/// suggests one decides; a table that suggests nothing reads as C.
pub open spec fn spec_language(names: Seq<Seq<u8>>) -> Seq<char>
    decreases names.len(),
{
    if names.len() == 0 {
        "C"@
    } else if lang_of(names.first()) is Some {
        lang_of(names.first()).unwrap()
    } else {
        spec_language(names.drop_first())
    }
}

/// Which toolchain the symbol table names.
#[derive(Clone, Copy, Debug, PartialEq, Eq, Structural)]
pub enum Toolchain {
    Unknown,
    Gcc,
    Clang,
}

/// The toolchain one symbol name marks, if any; a GCC mark beats a
/// Clang mark within one name.
pub open spec fn toolchain_of(name: Seq<u8>) -> Option<Toolchain> {
    if has_sub(name, pat_gcc()) {
        Some(Toolchain::Gcc)
    } else if has_sub(name, sig_clang()) {
        Some(Toolchain::Clang)
    } else {
        None
    }
}

/// The toolchain the whole symbol table marks: the last marked symbol
/// decides.
pub open spec fn spec_toolchain(names: Seq<Seq<u8>>) -> Toolchain
    decreases names.len(),
{
    if names.len() == 0 {
        Toolchain::Unknown
    } else if toolchain_of(names.last()) is Some {
        toolchain_of(names.last()).unwrap()
    } else {
        spec_toolchain(names.drop_last())
    }
}

/// The compiler label for a binary: a "rust" mark anywhere in the image
/// overrides whatever the symbol table said.
pub open spec fn spec_compiler_name(names: Seq<Seq<u8>>, buf: Seq<u8>) -> Seq<char> {
    if has_sub(buf, pat_rust()) {
        "rustc"@
    } else {
        match spec_toolchain(names) {
            Toolchain::Unknown => "Unknown"@,
            Toolchain::Gcc => "GCC"@,
            Toolchain::Clang => "Clang"@,
        }
    }
}

/// The language label for a binary: Rust when the image carries a
/// "rust" mark; otherwise what the symbols suggest, but only once some
/// toolchain mark was seen at all.
pub open spec fn spec_compiler_lang(names: Seq<Seq<u8>>, buf: Seq<u8>) -> Seq<char> {
    if has_sub(buf, pat_rust()) {
        "Rust"@
    } else if spec_toolchain(names) is Unknown {
        "Unknown"@
    } else {
        spec_language(names)
    }
}

/// Some window of exactly `width` bytes of `b` equals `pat` whole.
pub open spec fn has_window(b: Seq<u8>, width: int, pat: Seq<u8>) -> bool {
    exists|k: int| 0 <= k && k + width <= b.len() && #[trigger] b.subrange(k, k + width) == pat
}

/// The width of the window that the signature scan slides over the
/// image: every signature is held against a whole window of this many
/// bytes.
pub open spec fn signature_window() -> int {
    10
}

/// The signature labels a binary's raw bytes earn, in fixed order: a
/// label stands exactly when some whole ten-byte window equals its
/// pattern.  Every pattern is shorter than the window, so no window
/// ever equals one and the scan finds nothing on any image; the window
/// width is part of the scan's fixed behaviour, odd as it reads, and
/// the contract states it rather than a substring search the scan does
/// not perform.
pub open spec fn spec_signatures(b: Seq<u8>) -> Seq<Seq<char>> {
    (if has_window(b, signature_window(), sig_gnu_ld()) {
        seq!["GNU Linker"@]
    } else {
        Seq::empty()
    }) + (if has_window(b, signature_window(), sig_clang()) {
        seq!["Clang"@]
    } else {
        Seq::empty()
    }) + (if has_window(b, signature_window(), sig_rustc()) {
        seq!["Rustc"@]
    } else {
        Seq::empty()
    })
}

/// Whether some whole `width`-byte window of `hay` equals `pat`: a
/// pattern of any other length matches no window.
pub fn window_scan(hay: &[u8], width: usize, pat: &[u8]) -> (r: bool)
    ensures
        r == has_window(hay@, width as int, pat@),
{
    if pat.len() != width {
        proof {
            assert forall|k: int|
                0 <= k && k + width as int <= hay@.len() implies #[trigger] hay@.subrange(
                k,
                k + width as int,
            ) != pat@ by {
                assert(hay@.subrange(k, k + width as int).len() == width as int);
            }
        }
        return false;
    }
    let r = contains_bytes(hay, pat);
    proof {
        if has_sub(hay@, pat@) {
            let k = choose|k: int|
                0 <= k && k + pat@.len() <= hay@.len() && #[trigger] hay@.subrange(
                    k,
                    k + pat@.len() as int,
                ) == pat@;
            assert(hay@.subrange(k, k + width as int) == pat@);
        }
        if has_window(hay@, width as int, pat@) {
            let k = choose|k: int|
                0 <= k && k + width as int <= hay@.len() && #[trigger] hay@.subrange(
                    k,
                    k + width as int,
                ) == pat@;
            assert(hay@.subrange(k, k + pat@.len() as int) == pat@);
        }
    }
    r
}

/// Infers the likely source language from the symbol names: the first
/// symbol carrying a C++, Go or Python mark decides, and a table with
/// no mark reads as C.
#[verifier::loop_isolation(false)]
pub fn infer_language_from_symbols(names: &Vec<Vec<u8>>) -> (r: String)
    ensures
        r@ == spec_language(names_model(names@)),
{
    let p_std: Vec<u8> = vec![115u8, 116u8, 100u8, 58u8, 58u8];
    let p_cxx: Vec<u8> = vec![99u8, 120u8, 120u8];
    let p_go: Vec<u8> = vec![95u8, 103u8, 111u8];
    let p_rtm: Vec<u8> = vec![
        114u8, 117u8, 110u8, 116u8, 105u8, 109u8, 101u8, 46u8, 109u8, 97u8, 105u8, 110u8,
    ];
    let p_py: Vec<u8> = vec![80u8, 121u8, 95u8];
    let p_python: Vec<u8> = vec![112u8, 121u8, 116u8, 104u8, 111u8, 110u8];
    proof {
        assert(p_std@ =~= pat_cpp_std());
        assert(p_cxx@ =~= pat_cxx());
        assert(p_go@ =~= pat_go());
        assert(p_rtm@ =~= pat_runtime_main());
        assert(p_py@ =~= pat_py());
        assert(p_python@ =~= pat_python());
    }
    let ghost m = names_model(names@);
    proof {
        assert(m.skip(0) =~= m);
    }
    let mut i: usize = 0;
    while i < names.len()
        invariant
            i <= names@.len(),
            spec_language(m) == spec_language(m.skip(i as int)),
        decreases names@.len() - i,
    {
        proof {
            assert(m.skip(i as int).first() == m[i as int]);
            assert(m.skip(i as int).drop_first() =~= m.skip(i as int + 1));
        }
        let name = names[i].as_slice();
        if contains_bytes(name, p_std.as_slice()) || contains_bytes(name, p_cxx.as_slice()) {
            return String::from_str("C++");
        }
        if contains_bytes(name, p_go.as_slice()) || contains_bytes(name, p_rtm.as_slice()) {
            return String::from_str("Go");
        }
        if contains_bytes(name, p_py.as_slice()) || contains_bytes(name, p_python.as_slice()) {
            return String::from_str("Python (C API)");
        }
        i += 1;
    }
    proof {
        assert(m.skip(names@.len() as int) =~= Seq::<Seq<u8>>::empty());
    }
    String::from_str("C")
}

/// Infers compiler and language labels for a binary from its symbol
/// names and its raw bytes, exactly as [`spec_compiler_name`] and
/// [`spec_compiler_lang`] lay down.
#[verifier::loop_isolation(false)]
pub fn infer_compiler(names: &Vec<Vec<u8>>, buffer: &[u8]) -> (r: (String, String))
    ensures
        r.0@ == spec_compiler_name(names_model(names@), buffer@),
        r.1@ == spec_compiler_lang(names_model(names@), buffer@),
{
    let p_gcc: Vec<u8> = vec![103u8, 99u8, 99u8];
    let p_clang: Vec<u8> = vec![99u8, 108u8, 97u8, 110u8, 103u8];
    let p_rust: Vec<u8> = vec![114u8, 117u8, 115u8, 116u8];
    proof {
        assert(p_gcc@ =~= pat_gcc());
        assert(p_clang@ =~= sig_clang());
        assert(p_rust@ =~= pat_rust());
    }
    let ghost m = names_model(names@);
    let mut tc = Toolchain::Unknown;
    let mut i: usize = 0;
    while i < names.len()
        invariant
            i <= names@.len(),
            tc == spec_toolchain(m.take(i as int)),
        decreases names@.len() - i,
    {
        proof {
            assert(m.take(i as int + 1).drop_last() =~= m.take(i as int));
            assert(m.take(i as int + 1).last() == m[i as int]);
        }
        let name = names[i].as_slice();
        if contains_bytes(name, p_gcc.as_slice()) {
            tc = Toolchain::Gcc;
        } else if contains_bytes(name, p_clang.as_slice()) {
            tc = Toolchain::Clang;
        }
        i += 1;
    }
    proof {
        assert(m.take(names@.len() as int) =~= m);
    }
    if contains_bytes(buffer, p_rust.as_slice()) {
        (String::from_str("rustc"), String::from_str("Rust"))
    } else {
        match tc {
            Toolchain::Unknown => (String::from_str("Unknown"), String::from_str("Unknown")),
            Toolchain::Gcc => (String::from_str("GCC"), infer_language_from_symbols(names)),
            Toolchain::Clang => (String::from_str("Clang"), infer_language_from_symbols(names)),
        }
    }
}

/// Scans a binary's raw bytes for embedded linker and compiler
/// signatures, holding each pattern against whole ten-byte windows of
/// the image, and labels each match in fixed order.  As every pattern
/// is shorter than the window, the scan labels nothing — see
/// [`spec_signatures`].
pub fn check_compiler_signatures(buffer: &[u8]) -> (r: Vec<String>)
    ensures
        labels_model(r@) == spec_signatures(buffer@),
{
    let s_gnu: Vec<u8> = vec![71u8, 78u8, 85u8, 32u8, 108u8, 100u8];
    let s_clang: Vec<u8> = vec![99u8, 108u8, 97u8, 110u8, 103u8];
    let s_rustc: Vec<u8> = vec![114u8, 117u8, 115u8, 116u8, 99u8];
    proof {
        assert(s_gnu@ =~= sig_gnu_ld());
        assert(s_clang@ =~= sig_clang());
        assert(s_rustc@ =~= sig_rustc());
    }
    let mut out: Vec<String> = Vec::new();
    if window_scan(buffer, 10, s_gnu.as_slice()) {
        out.push(String::from_str("GNU Linker"));
    }
    if window_scan(buffer, 10, s_clang.as_slice()) {
        out.push(String::from_str("Clang"));
    }
    if window_scan(buffer, 10, s_rustc.as_slice()) {
        out.push(String::from_str("Rustc"));
    }
    proof {
        assert(labels_model(out@) =~= spec_signatures(buffer@));
    }
    out
}

/// What a parse of the buffer as an ELF binary yields: nothing when the
/// bytes are not a well-formed image, else the symbol names in table
/// order, an unresolvable name read as empty.  The value is fixed by
/// the bytes alone.
pub uninterp spec fn elf_sym_names(b: Seq<u8>) -> Option<Seq<Seq<u8>>>;

/// Relies on goblin::elf::Elf::parse and goblin::strtab::Strtab::get_at:
/// parsing is deterministic in the bytes, and each symbol's name is read
/// from the string table, an unresolvable one as empty.
#[verifier::external_body]
fn parse_symbol_names(buffer: &Vec<u8>) -> (r: Result<Vec<Vec<u8>>, String>)
    ensures
        r is Ok <==> elf_sym_names(buffer@) is Some,
        r matches Ok(names) ==> names_model(names@) == elf_sym_names(buffer@).unwrap(),
{
    match goblin::elf::Elf::parse(buffer.as_slice()) {
        Ok(elf) => Ok(
            elf.syms.iter().map(
                |sym| elf.strtab.get_at(sym.st_name).unwrap_or("").as_bytes().to_vec(),
            ).collect(),
        ),
        Err(e) => Err(format!("{}", e)),
    }
}

/// What the analysis of one binary reports.
#[derive(Debug)]
pub struct BinaryReport {
    pub compiler: String,
    pub language: String,
    pub signatures: Vec<String>,
}

/// Analyzes a binary image: parses it as ELF, classifies compiler and
/// language from the symbol names and raw bytes, and collects the
/// embedded signatures.  Exactly the images the parser rejects are
/// reported as errors, carrying the parser's message.
pub fn classify_binary(buffer: &Vec<u8>) -> (r: Result<BinaryReport, String>)
    ensures
        r is Ok <==> elf_sym_names(buffer@) is Some,
        r matches Ok(rep) ==> {
            let names = elf_sym_names(buffer@).unwrap();
            &&& rep.compiler@ == spec_compiler_name(names, buffer@)
            &&& rep.language@ == spec_compiler_lang(names, buffer@)
            &&& labels_model(rep.signatures@) == spec_signatures(buffer@)
        },
{
    match parse_symbol_names(buffer) {
        Ok(names) => {
            let (compiler, language) = infer_compiler(&names, buffer.as_slice());
            let signatures = check_compiler_signatures(buffer.as_slice());
            Ok(BinaryReport { compiler, language, signatures })
        },
        Err(e) => Err(e),
    }
}

} // verus!
