use vstd::prelude::*;

use crate::binario::{contido, LIMITE, UM};

verus! {

/// Lower-cased form of a text, as `str::to_lowercase` computes it from the
/// Unicode tables of the standard library.
pub uninterp spec fn minusculas(s: Seq<char>) -> Seq<char>;

/// Whether a character is alphabetic or numeric, as `char::is_alphanumeric`
/// decides it from the Unicode tables of the standard library.
pub uninterp spec fn alfanumerico(c: char) -> bool;

/// Calls `str::to_lowercase`. Claimed: the result is `minusculas` of the
/// text, a function of the text alone; nothing more is said of it.
#[verifier::external_body]
pub(crate) fn para_minusculas(s: &str) -> (r: String)
    ensures
        r@ == minusculas(s@),
{
    s.to_lowercase()
}

/// Calls `char::is_alphanumeric`. Claimed: the result is `alfanumerico` of
/// the character, a function of the character alone.
#[verifier::external_body]
fn eh_alfanumerico(c: char) -> (r: bool)
    ensures
        r == alfanumerico(c),
{
    c.is_alphanumeric()
}

/// Builds a `String` with `String::from_iter` over the characters of `v`.
/// Claimed: the string holds exactly those characters, in order.
#[verifier::external_body]
pub(crate) fn para_string(v: &Vec<char>) -> (r: String)
    ensures
        r@ == v@,
{
    String::from_iter(v.iter())
}

/// Unicode `White_Space` property, the set `char::is_whitespace` tests.
pub open spec fn espaco(c: char) -> bool {
    let n = c as u32;
    ||| n == 0x20
    ||| 0x09 <= n <= 0x0d
    ||| n == 0x85
    ||| n == 0xa0
    ||| n == 0x1680
    ||| 0x2000 <= n <= 0x200a
    ||| n == 0x2028
    ||| n == 0x2029
    ||| n == 0x202f
    ||| n == 0x205f
    ||| n == 0x3000
}

/// Whether `c` is white space, as `char::is_whitespace` decides.
pub fn eh_espaco(c: char) -> (r: bool)
    ensures
        r == espaco(c),
{
    let n = c as u32;
    n == 0x20 || (0x09 <= n && n <= 0x0d) || n == 0x85 || n == 0xa0 || n == 0x1680 || (0x2000
        <= n && n <= 0x200a) || n == 0x2028 || n == 0x2029 || n == 0x202f || n == 0x205f || n
        == 0x3000
}

/// The characters of a text, in order.
pub fn caracteres(s: &str) -> (v: Vec<char>)
    ensures
        v@ == s@,
{
    let mut v: Vec<char> = Vec::new();
    proof {
        broadcast use vstd::string::group_string_axioms;
    }
    for c in it: s.chars()
        invariant
            v@ == it.seq().take(it.index()),
            it.seq() == s@,
    {
        v.push(c);
    }
    v
}

/// Which characters a trim removes.
#[derive(Clone, Copy, PartialEq, Eq, Structural)]
pub enum Criterio {
    /// White space, as `str::trim` removes it.
    Espaco,
    /// What a key never begins or ends with: neither alphanumeric, nor a
    /// space, nor one of 'ç', 'ã', 'é'.
    Descartavel,
}

/// The characters that may not begin or end a normalised key.
pub open spec fn descartavel(c: char) -> bool {
    !alfanumerico(c) && c != ' ' && c != 'ç' && c != 'ã' && c != 'é'
}

/// Whether a trim by `k` removes `c`.
pub open spec fn satisfaz(k: Criterio, c: char) -> bool {
    match k {
        Criterio::Espaco => espaco(c),
        Criterio::Descartavel => descartavel(c),
    }
}

fn testa(k: Criterio, c: char) -> (r: bool)
    ensures
        r == satisfaz(k, c),
{
    match k {
        Criterio::Espaco => eh_espaco(c),
        Criterio::Descartavel => !eh_alfanumerico(c) && c != ' ' && c != 'ç' && c != 'ã' && c
            != 'é',
    }
}

/// `s` without the leading characters that meet `k`.
pub open spec fn sem_inicio(s: Seq<char>, k: Criterio) -> Seq<char>
    decreases s.len(),
{
    if s.len() > 0 && satisfaz(k, s[0]) {
        sem_inicio(s.drop_first(), k)
    } else {
        s
    }
}

/// `s` without the trailing characters that meet `k`.
pub open spec fn sem_fim(s: Seq<char>, k: Criterio) -> Seq<char>
    decreases s.len(),
{
    if s.len() > 0 && satisfaz(k, s.last()) {
        sem_fim(s.drop_last(), k)
    } else {
        s
    }
}

/// `s` without the characters that meet `k` at either end.
pub open spec fn aparada(s: Seq<char>, k: Criterio) -> Seq<char> {
    sem_fim(sem_inicio(s, k), k)
}

/// A copy of `v[i..j]`.
fn fatia(v: &Vec<char>, i: usize, j: usize) -> (r: Vec<char>)
    requires
        i <= j <= v.len(),
    ensures
        r@ == v@.subrange(i as int, j as int),
{
    let mut r: Vec<char> = Vec::new();
    let mut n = i;
    while n < j
        invariant
            i <= n <= j <= v.len(),
            r@ == v@.subrange(i as int, n as int),
        decreases j - n,
    {
        r.push(v[n]);
        n += 1;
    }
    r
}

/// Removes the characters that meet `k` from both ends.
pub fn aparar(v: &Vec<char>, k: Criterio) -> (r: Vec<char>)
    ensures
        r@ == aparada(v@, k),
{
    let mut i: usize = 0;
    assert(v@.skip(0) =~= v@);
    while i < v.len() && testa(k, v[i])
        invariant
            i <= v.len(),
            sem_inicio(v@, k) == sem_inicio(v@.skip(i as int), k),
        decreases v.len() - i,
    {
        assert(v@.skip(i as int).drop_first() =~= v@.skip(i + 1));
        i += 1;
    }
    assert(sem_inicio(v@, k) == v@.skip(i as int));
    let mut j: usize = v.len();
    assert(v@.skip(i as int) =~= v@.subrange(i as int, j as int));
    while j > i && testa(k, v[j - 1])
        invariant
            i <= j <= v.len(),
            sem_inicio(v@, k) == v@.skip(i as int),
            sem_fim(v@.skip(i as int), k) == sem_fim(v@.subrange(i as int, j as int), k),
        decreases j,
    {
        assert(v@.subrange(i as int, j as int).drop_last() =~= v@.subrange(i as int, j - 1));
        j -= 1;
    }
    fatia(v, i, j)
}

/// `s` with each pair of consecutive spaces, taken from the left, made one.
pub open spec fn sem_espacos_duplos(s: Seq<char>) -> Seq<char>
    decreases s.len(),
{
    if s.len() == 0 {
        s
    } else if s.len() >= 2 && s[0] == ' ' && s[1] == ' ' {
        seq![' '] + sem_espacos_duplos(s.skip(2))
    } else {
        seq![s[0]] + sem_espacos_duplos(s.drop_first())
    }
}

/// Replaces `"  "` by `" "`, as `str::replace` does.
pub fn colapsar_espacos(v: &Vec<char>) -> (r: Vec<char>)
    ensures
        r@ == sem_espacos_duplos(v@),
{
    let mut r: Vec<char> = Vec::new();
    let mut i: usize = 0;
    assert(v@.skip(0) =~= v@);
    while i < v.len()
        invariant
            i <= v.len(),
            sem_espacos_duplos(v@) == r@ + sem_espacos_duplos(v@.skip(i as int)),
        decreases v.len() - i,
    {
        let ghost resto = v@.skip(i as int);
        if i + 1 < v.len() && v[i] == ' ' && v[i + 1] == ' ' {
            assert(resto.skip(2) =~= v@.skip(i + 2));
            assert(r@.push(' ') + sem_espacos_duplos(v@.skip(i + 2)) =~= r@ + (seq![' ']
                + sem_espacos_duplos(v@.skip(i + 2))));
            r.push(' ');
            i += 2;
        } else {
            assert(resto.drop_first() =~= v@.skip(i + 1));
            assert(r@.push(v@[i as int]) + sem_espacos_duplos(v@.skip(i + 1)) =~= r@ + (seq![
                v@[i as int],
            ] + sem_espacos_duplos(v@.skip(i + 1))));
            r.push(v[i]);
            i += 1;
        }
    }
    assert(v@.skip(i as int) =~= Seq::<char>::empty());
    assert(r@ + Seq::<char>::empty() =~= r@);
    r
}

/// The key a lower-case text stands for: trimmed of white space and of the
/// non-alphanumeric characters at its ends, double spaces made single.
pub open spec fn chave_de(low: Seq<char>) -> Seq<char> {
    sem_espacos_duplos(aparada(aparada(low, Criterio::Espaco), Criterio::Descartavel))
}

/// The key a text stands for: the key of its lower-case form.
pub open spec fn normalizada(s: Seq<char>) -> Seq<char> {
    chave_de(minusculas(s))
}

/// The key a lower-case text stands for.
pub fn chave_de_minusculas(low: &str) -> (r: String)
    ensures
        r@ == chave_de(low@),
{
    let v = caracteres(low);
    let a = aparar(&v, Criterio::Espaco);
    let b = aparar(&a, Criterio::Descartavel);
    let c = colapsar_espacos(&b);
    para_string(&c)
}

/// Normalises a text into a key.
pub fn normalizar_chave(texto: &str) -> (r: String)
    ensures
        r@ == normalizada(texto@),
{
    let low = para_minusculas(texto);
    chave_de_minusculas(low.as_str())
}

/// The views of a list of strings.
pub open spec fn vistas(v: Seq<String>) -> Seq<Seq<char>> {
    v.map_values(|s: String| s@)
}

/// The words of `s` not yet emitted, given the word `atual` begun before it:
/// maximal runs of characters that are not white space, as
/// `str::split_whitespace` yields them.
pub open spec fn palavras_desde(s: Seq<char>, atual: Seq<char>) -> Seq<Seq<char>>
    decreases s.len(),
{
    let feita = if atual.len() == 0 {
        Seq::<Seq<char>>::empty()
    } else {
        seq![atual]
    };
    if s.len() == 0 {
        feita
    } else if espaco(s[0]) {
        feita + palavras_desde(s.drop_first(), Seq::empty())
    } else {
        palavras_desde(s.drop_first(), atual.push(s[0]))
    }
}

/// The words of `s`, in order.
pub open spec fn palavras(s: Seq<char>) -> Seq<Seq<char>> {
    palavras_desde(s, Seq::empty())
}

/// Splits a text at its white space, as `str::split_whitespace` does.
pub fn separar_palavras(texto: &str) -> (r: Vec<String>)
    ensures
        vistas(r@) == palavras(texto@),
{
    let v = caracteres(texto);
    let mut r: Vec<String> = Vec::new();
    let mut atual: Vec<char> = Vec::new();
    let mut i: usize = 0;
    assert(v@.skip(0) =~= v@);
    while i < v.len()
        invariant
            i <= v.len(),
            v@ == texto@,
            palavras(v@) == vistas(r@) + palavras_desde(v@.skip(i as int), atual@),
        decreases v.len() - i,
    {
        let ghost resto = v@.skip(i as int);
        assert(resto.drop_first() =~= v@.skip(i + 1));
        if eh_espaco(v[i]) {
            if atual.len() > 0 {
                let w = para_string(&atual);
                let ghost antes = r@;
                r.push(w);
                assert(vistas(r@) =~= vistas(antes) + seq![atual@]);
                assert(vistas(r@) + palavras_desde(v@.skip(i + 1), Seq::empty()) =~= vistas(antes)
                    + (seq![atual@] + palavras_desde(v@.skip(i + 1), Seq::empty())));
            } else {
                assert(Seq::<Seq<char>>::empty() + palavras_desde(v@.skip(i + 1), Seq::empty())
                    =~= palavras_desde(v@.skip(i + 1), Seq::empty()));
            }
            atual = Vec::new();
        } else {
            atual.push(v[i]);
        }
        i += 1;
    }
    assert(v@.skip(i as int) =~= Seq::<char>::empty());
    if atual.len() > 0 {
        let w = para_string(&atual);
        let ghost antes = r@;
        r.push(w);
        assert(vistas(r@) =~= vistas(antes) + seq![atual@]);
    } else {
        assert(vistas(r@) + Seq::<Seq<char>>::empty() =~= vistas(r@));
    }
    r
}

/// How many bytes the UTF-8 encoding of `c` takes, as `char::len_utf8` says.
pub open spec fn largura_utf8(c: char) -> nat {
    let n = c as u32;
    if n < 0x80 {
        1
    } else if n < 0x800 {
        2
    } else if n < 0x10000 {
        3
    } else {
        4
    }
}

/// How many bytes the UTF-8 encoding of `s` takes: what `str::len` returns.
pub open spec fn bytes_utf8(s: Seq<char>) -> nat
    decreases s.len(),
{
    if s.len() == 0 {
        0
    } else {
        bytes_utf8(s.drop_last()) + largura_utf8(s.last())
    }
}

/// Whether the UTF-8 encoding of `v` is longer than two bytes.
pub fn mais_de_dois_bytes(v: &Vec<char>) -> (r: bool)
    ensures
        r == (bytes_utf8(v@) > 2),
{
    let mut total: usize = 0;
    let mut i: usize = 0;
    while i < v.len()
        invariant
            i <= v.len(),
            total == if bytes_utf8(v@.take(i as int)) < 3 {
                bytes_utf8(v@.take(i as int))
            } else {
                3
            },
        decreases v.len() - i,
    {
        assert(v@.take(i + 1).drop_last() =~= v@.take(i as int));
        let n = v[i] as u32;
        let w: usize = if n < 0x80 {
            1
        } else if n < 0x800 {
            2
        } else if n < 0x10000 {
            3
        } else {
            4
        };
        total = if total + w < 3 {
            total + w
        } else {
            3
        };
        i += 1;
    }
    assert(v@.take(i as int) =~= v@);
    total > 2
}

/// Whether `t` equals the literal `lit`.
pub fn igual(t: &String, lit: &str) -> (r: bool)
    ensures
        r == (t@ == lit@),
{
    let l = lit.to_owned();
    *t == l
}

/// The words that never count as terms.
pub open spec fn palavra_vazia(t: Seq<char>) -> bool {
    ||| t == "de"@
    ||| t == "da"@
    ||| t == "do"@
    ||| t == "das"@
    ||| t == "dos"@
    ||| t == "a"@
    ||| t == "o"@
    ||| t == "e"@
    ||| t == "um"@
    ||| t == "uma"@
    ||| t == "que"@
    ||| t == "como"@
    ||| t == "para"@
    ||| t == "com"@
    ||| t == "sem"@
    ||| t == "por"@
    ||| t == "em"@
    ||| t == "no"@
    ||| t == "na"@
    ||| t == "nos"@
    ||| t == "nas"@
    ||| t == "eu"@
    ||| t == "você"@
    ||| t == "voce"@
    ||| t == "me"@
    ||| t == "te"@
}

fn eh_palavra_vazia(t: &String) -> (r: bool)
    ensures
        r == palavra_vazia(t@),
{
    igual(t, "de") || igual(t, "da") || igual(t, "do") || igual(t, "das") || igual(t, "dos")
        || igual(t, "a") || igual(t, "o") || igual(t, "e") || igual(t, "um") || igual(t, "uma")
        || igual(t, "que") || igual(t, "como") || igual(t, "para") || igual(t, "com") || igual(
        t,
        "sem",
    ) || igual(t, "por") || igual(t, "em") || igual(t, "no") || igual(t, "na") || igual(t, "nos")
        || igual(t, "nas") || igual(t, "eu") || igual(t, "você") || igual(t, "voce") || igual(
        t,
        "me",
    ) || igual(t, "te")
}

/// Whether a normalised word counts as a term: longer than two bytes and not
/// one of the words that carry no topic.
pub open spec fn relevante(t: Seq<char>) -> bool {
    bytes_utf8(t) > 2 && !palavra_vazia(t)
}

/// The terms of a list of words: each word normalised, the relevant ones
/// kept, each once, in the order of their first occurrence.
pub open spec fn termos_de(ws: Seq<Seq<char>>) -> Seq<Seq<char>>
    decreases ws.len(),
{
    if ws.len() == 0 {
        Seq::empty()
    } else {
        let r = termos_de(ws.drop_last());
        let t = normalizada(ws.last());
        if relevante(t) && !r.contains(t) {
            r.push(t)
        } else {
            r
        }
    }
}

/// The terms of a text.
pub open spec fn termos(s: Seq<char>) -> Seq<Seq<char>> {
    termos_de(palavras(s))
}

/// Whether `v` holds a string whose view is `t@`.
pub fn contem_string(v: &Vec<String>, t: &String) -> (r: bool)
    ensures
        r == vistas(v@).contains(t@),
{
    let mut i: usize = 0;
    while i < v.len()
        invariant
            i <= v.len(),
            forall|j: int| 0 <= j < i ==> v@[j]@ != t@,
        decreases v.len() - i,
    {
        if v[i] == *t {
            assert(vistas(v@)[i as int] == t@);
            return true;
        }
        i += 1;
    }
    proof {
        if vistas(v@).contains(t@) {
            let j = choose|j: int| 0 <= j < vistas(v@).len() && vistas(v@)[j] == t@;
            assert(v@[j]@ == t@);
        }
    }
    false
}

/// The relevant terms of a text, each once, in the order in which they first
/// occur.
pub fn termos_relevantes(texto: &str) -> (r: Vec<String>)
    ensures
        vistas(r@) == termos(texto@),
        vistas(r@).no_duplicates(),
{
    let ws = separar_palavras(texto);
    let mut r: Vec<String> = Vec::new();
    let mut k: usize = 0;
    while k < ws.len()
        invariant
            k <= ws.len(),
            vistas(ws@) == palavras(texto@),
            vistas(r@) == termos_de(vistas(ws@).take(k as int)),
            vistas(r@).no_duplicates(),
        decreases ws.len() - k,
    {
        assert(vistas(ws@).take(k + 1).drop_last() =~= vistas(ws@).take(k as int));
        assert(vistas(ws@).take(k + 1).last() == ws@[k as int]@);
        let t = normalizar_chave(ws[k].as_str());
        let cs = caracteres(t.as_str());
        if mais_de_dois_bytes(&cs) && !eh_palavra_vazia(&t) && !contem_string(&r, &t) {
            let ghost antes = r@;
            r.push(t);
            assert(vistas(r@) =~= vistas(antes).push(t@));
        }
        k += 1;
    }
    assert(vistas(ws@).take(k as int) =~= vistas(ws@));
    r
}

/// The text that explains, step by step, how to build, run and teach Aurora.
pub open spec fn texto_tutorial() -> Seq<char> {
    "PASSO A PASSO (do zero):\n1) Instale Rust: https://rustup.rs\n2) Abra o terminal e entre no projeto: cd /workspace/AI\n3) Formate: cargo fmt\n4) Teste: cargo test\n5) Execute: cargo run\n6) Ensine: /ensinar capital do brasil = brasilia\n7) Consulte: /fato capital do brasil ou lembra de capital do brasil\n8) Veja status: /status\n9) Ajuste segurança: /modo-seguro on|off\n10) Encerrar: sair\nObs.: o arquivo ./.aurora_memoria.json guarda o aprendizado entre sessões."@
}

/// The text that explains, step by step, how to build, run and teach Aurora.
pub fn tutorial_instalacao() -> (r: &'static str)
    ensures
        r@ == texto_tutorial(),
{
    "PASSO A PASSO (do zero):\n1) Instale Rust: https://rustup.rs\n2) Abra o terminal e entre no projeto: cd /workspace/AI\n3) Formate: cargo fmt\n4) Teste: cargo test\n5) Execute: cargo run\n6) Ensine: /ensinar capital do brasil = brasilia\n7) Consulte: /fato capital do brasil ou lembra de capital do brasil\n8) Veja status: /status\n9) Ajuste segurança: /modo-seguro on|off\n10) Encerrar: sair\nObs.: o arquivo ./.aurora_memoria.json guarda o aprendizado entre sessões."
}

/// The first position at or after `i` where `p` occurs in `s`, or -1.
pub open spec fn busca_desde(s: Seq<char>, p: Seq<char>, i: nat) -> int
    decreases s.len() + 1 - i,
{
    if i + p.len() > s.len() {
        -1
    } else if s.subrange(i as int, (i + p.len()) as int) == p {
        i as int
    } else {
        busca_desde(s, p, i + 1)
    }
}

/// The first position where `p` occurs in `s`, or -1.
pub open spec fn posicao(s: Seq<char>, p: Seq<char>) -> int {
    busca_desde(s, p, 0)
}

/// Whether `p` occurs in `s`, as `str::contains` decides.
pub open spec fn contem(s: Seq<char>, p: Seq<char>) -> bool {
    posicao(s, p) >= 0
}

/// What precedes the first occurrence of `p` in `s`.
pub open spec fn antes(s: Seq<char>, p: Seq<char>) -> Seq<char> {
    s.take(posicao(s, p))
}

/// What follows the first occurrence of `p` in `s`.
pub open spec fn depois(s: Seq<char>, p: Seq<char>) -> Seq<char> {
    s.skip(posicao(s, p) + p.len())
}

/// Whether `s` begins with `p`.
pub open spec fn comeca_com(s: Seq<char>, p: Seq<char>) -> bool {
    p.len() <= s.len() && s.take(p.len() as int) == p
}

/// Whether `s` ends with `p`.
pub open spec fn termina_com(s: Seq<char>, p: Seq<char>) -> bool {
    p.len() <= s.len() && s.skip(s.len() - p.len()) == p
}

/// `s` without the copies of `p` that begin it, as `str::trim_start_matches`
/// removes them.
pub open spec fn sem_prefixos(s: Seq<char>, p: Seq<char>) -> Seq<char>
    decreases s.len(),
{
    if p.len() > 0 && comeca_com(s, p) {
        sem_prefixos(s.skip(p.len() as int), p)
    } else {
        s
    }
}

/// Whether `p` occurs in `v` at position `i`.
fn coincide(v: &Vec<char>, p: &Vec<char>, i: usize) -> (r: bool)
    requires
        i + p.len() <= v.len(),
    ensures
        r == (v@.subrange(i as int, i + p.len()) == p@),
{
    let mut k: usize = 0;
    while k < p.len()
        invariant
            k <= p.len(),
            i + p.len() <= v.len(),
            forall|m: int| 0 <= m < k ==> v@[i + m] == p@[m],
        decreases p.len() - k,
    {
        if v[i + k] != p[k] {
            assert(v@.subrange(i as int, i + p.len())[k as int] != p@[k as int]);
            return false;
        }
        k += 1;
    }
    assert(v@.subrange(i as int, i + p.len()) =~= p@);
    true
}

/// The first position where `p` occurs in `v`.
pub fn buscar(v: &Vec<char>, p: &Vec<char>) -> (r: Option<usize>)
    ensures
        match r {
            Some(i) => i == posicao(v@, p@) && i + p.len() <= v.len(),
            None => posicao(v@, p@) == -1,
        },
{
    if p.len() > v.len() {
        return None;
    }
    if p.len() == 0 {
        assert(v@.subrange(0, 0) =~= p@);
        return Some(0);
    }
    let mut i: usize = 0;
    while i <= v.len() - p.len()
        invariant
            0 < p.len() <= v.len(),
            i <= v.len() - p.len() + 1,
            posicao(v@, p@) == busca_desde(v@, p@, i as nat),
        decreases v.len() - p.len() + 1 - i,
    {
        if coincide(v, p, i) {
            return Some(i);
        }
        i += 1;
    }
    None
}

/// Whether the literal `p` occurs in `v`.
pub fn contem_literal(v: &Vec<char>, p: &str) -> (r: bool)
    ensures
        r == contem(v@, p@),
{
    let pv = caracteres(p);
    buscar(v, &pv).is_some()
}

/// Splits `v` at the first occurrence of the literal `p`, as `str::split_once`
/// does.
pub fn dividir_uma_vez(v: &Vec<char>, p: &str) -> (r: Option<(Vec<char>, Vec<char>)>)
    ensures
        r is Some <==> contem(v@, p@),
        r matches Some((a, b)) ==> a@ == antes(v@, p@) && b@ == depois(v@, p@),
{
    let pv = caracteres(p);
    match buscar(v, &pv) {
        Some(i) => {
            let a = fatia(v, 0, i);
            let b = fatia(v, i + pv.len(), v.len());
            assert(a@ =~= v@.take(i as int));
            assert(b@ =~= v@.skip(i + pv.len()));
            Some((a, b))
        },
        None => None,
    }
}

/// Whether `v` begins with the literal `p`.
pub fn comeca_com_literal(v: &Vec<char>, p: &str) -> (r: bool)
    ensures
        r == comeca_com(v@, p@),
{
    let pv = caracteres(p);
    if pv.len() > v.len() {
        return false;
    }
    let r = coincide(v, &pv, 0);
    assert(v@.subrange(0, pv.len() as int) =~= v@.take(pv.len() as int));
    r
}

/// Whether `v` ends with the literal `p`.
pub fn termina_com_literal(v: &Vec<char>, p: &str) -> (r: bool)
    ensures
        r == termina_com(v@, p@),
{
    let pv = caracteres(p);
    if pv.len() > v.len() {
        return false;
    }
    let r = coincide(v, &pv, v.len() - pv.len());
    assert(v@.subrange(v.len() - pv.len(), v.len() as int) =~= v@.skip(v.len() - pv.len()));
    r
}

/// Removes the copies of the literal `p` that begin `v`.
pub fn remover_prefixos(v: &Vec<char>, p: &str) -> (r: Vec<char>)
    ensures
        r@ == sem_prefixos(v@, p@),
{
    let pv = caracteres(p);
    let mut i: usize = 0;
    assert(v@.skip(0) =~= v@);
    while pv.len() > 0 && pv.len() <= v.len() - i && coincide(v, &pv, i)
        invariant
            i <= v.len(),
            sem_prefixos(v@, pv@) == sem_prefixos(v@.skip(i as int), pv@),
        decreases v.len() - i,
    {
        assert(v@.skip(i as int).take(pv.len() as int) =~= v@.subrange(i as int, i + pv.len()));
        assert(v@.skip(i as int).skip(pv.len() as int) =~= v@.skip(i + pv.len()));
        i += pv.len();
    }
    proof {
        if pv.len() > 0 && pv.len() <= v.len() - i {
            assert(v@.skip(i as int).take(pv.len() as int) =~= v@.subrange(i as int, i + pv.len()));
        }
    }
    fatia(v, i, v.len())
}

/// The character of the decimal digit `d`.
pub open spec fn digito(d: nat) -> char {
    ((d + 48) as u8) as char
}

/// The decimal numeral of `n`, as `Display` writes an unsigned integer.
pub open spec fn numeral(n: nat) -> Seq<char>
    decreases n,
{
    if n < 10 {
        seq![digito(n)]
    } else {
        numeral(n / 10).push(digito(n % 10))
    }
}

fn escrever_numeral(n: u64, out: &mut Vec<char>)
    ensures
        final(out)@ == old(out)@ + numeral(n as nat),
    decreases n,
{
    if n >= 10 {
        escrever_numeral(n / 10, out);
    }
    let d = ((n % 10) as u8 + 48) as char;
    out.push(d);
    proof {
        if n >= 10 {
            assert(old(out)@ + numeral(n as nat) =~= old(out)@ + numeral((n / 10) as nat) + seq![
                d,
            ]);
        } else {
            assert(old(out)@ + numeral(n as nat) =~= old(out)@.push(d));
        }
    }
}

/// Appends the decimal numeral of `n` to `out`.
pub fn anexar_numero(out: &mut Vec<char>, n: usize)
    ensures
        final(out)@ == old(out)@ + numeral(n as nat),
{
    escrever_numeral(n as u64, out);
}

/// Appends the characters of the literal or string `s` to `out`.
pub fn anexar(out: &mut Vec<char>, s: &str)
    ensures
        final(out)@ == old(out)@ + s@,
{
    let v = caracteres(s);
    let mut i: usize = 0;
    while i < v.len()
        invariant
            i <= v.len(),
            v@ == s@,
            out@ == old(out)@ + v@.take(i as int),
        decreases v.len() - i,
    {
        assert(v@.take(i + 1) =~= v@.take(i as int).push(v@[i as int]));
        out.push(v[i]);
        i += 1;
    }
    assert(v@.take(i as int) =~= v@);
}

/// The number `x / 2^64` (brought to at most 2^34 in magnitude) written
/// with two decimals, as `{:.2}` writes a binary floating-point number: its
/// exact value rounded to hundredths, a tie going to the even hundredth, and
/// a minus sign before any negative number.
pub open spec fn duas_casas(x: int) -> Seq<char> {
    let y = contido(x);
    let a = if y < 0 {
        -y
    } else {
        y
    };
    let t = a * 100;
    let c0 = t / (UM as int);
    let r = t % (UM as int);
    let c = if 2 * r > UM || (2 * r == UM && c0 % 2 == 1) {
        c0 + 1
    } else {
        c0
    };
    let sinal = if y < 0 {
        seq!['-']
    } else {
        Seq::<char>::empty()
    };
    sinal + numeral((c / 100) as nat) + seq!['.', digito(((c % 100) / 10) as nat), digito(
        (c % 10) as nat,
    )]
}

/// Appends the number `x / 2^64` with two decimals.
pub fn anexar_duas_casas(out: &mut Vec<char>, x: i128)
    ensures
        final(out)@ == old(out)@ + duas_casas(x as int),
{
    let y: i128 = if x < -LIMITE {
        -LIMITE
    } else if x > LIMITE {
        LIMITE
    } else {
        x
    };
    let a: u128 = if y < 0 {
        (-y) as u128
    } else {
        y as u128
    };
    let t = a * 100;
    let um: u128 = UM as u128;
    let c0 = t / um;
    let r = t % um;
    let c: u128 = if r * 2 > um || (r * 2 == um && c0 % 2 == 1) {
        c0 + 1
    } else {
        c0
    };
    let ghost o = out@;
    if y < 0 {
        out.push('-');
    }
    assert(c / 100 < 0x1_0000_0000_0000);
    escrever_numeral((c / 100) as u64, out);
    out.push('.');
    out.push((((c % 100) / 10) as u8 + 48) as char);
    out.push(((c % 10) as u8 + 48) as char);
    proof {
        let sinal = if y < 0 {
            seq!['-']
        } else {
            Seq::<char>::empty()
        };
        assert(out@ =~= o + (sinal + numeral((c / 100) as nat) + seq![
            '.',
            digito(((c % 100) / 10) as nat),
            digito((c % 10) as nat),
        ]));
    }
}

/// `ts` joined with `sep` between each two.
pub open spec fn juntar(ts: Seq<Seq<char>>, sep: Seq<char>) -> Seq<char>
    decreases ts.len(),
{
    if ts.len() == 0 {
        Seq::empty()
    } else if ts.len() == 1 {
        ts[0]
    } else {
        juntar(ts.drop_last(), sep) + sep + ts.last()
    }
}

/// At most the first `n` entries of `s`.
pub open spec fn primeiros<A>(s: Seq<A>, n: nat) -> Seq<A> {
    if s.len() <= n {
        s
    } else {
        s.take(n as int)
    }
}

/// `partes` joined with `sep` between each two.
pub fn juntar_textos(partes: &Vec<String>, sep: &str) -> (r: String)
    ensures
        r@ == juntar(vistas(partes@), sep@),
{
    let ghost ps = vistas(partes@);
    let mut v: Vec<char> = Vec::new();
    let mut i: usize = 0;
    while i < partes.len()
        invariant
            i <= partes.len(),
            ps == vistas(partes@),
            v@ == juntar(ps.take(i as int), sep@),
        decreases partes.len() - i,
    {
        assert(ps.take(i + 1).drop_last() =~= ps.take(i as int));
        assert(ps.take(i + 1).last() == partes@[i as int]@);
        if i > 0 {
            anexar(&mut v, sep);
        } else {
            assert(juntar(ps.take(0), sep@) =~= Seq::<char>::empty());
            assert(ps.take(1) =~= seq![partes@[0]@]);
        }
        anexar(&mut v, partes[i].as_str());
        assert(v@ =~= juntar(ps.take(i + 1), sep@));
        i += 1;
    }
    assert(ps.take(i as int) =~= ps);
    para_string(&v)
}

} // verus!
