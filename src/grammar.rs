use vstd::prelude::*;
use crate::render::name_is;
use crate::template::{Block, Node, Param, PathExpr, PathKind};
use crate::value::{parse_index_exec, push_char, Json};

verus! {

broadcast use vstd::std_specs::vec::group_vec_axioms, vstd::seq::group_seq_axioms;

/// Why a template source was refused, with the character position.
#[derive(Debug)]
pub enum TemplateError {
    /// `{{` without a matching `}}`.
    UnclosedExpression(usize),
    /// `{{}}` with nothing inside.
    EmptyExpression(usize),
    /// `{{else}}` or `{{/name}}` outside any block.
    UnexpectedClose(usize),
    /// `{{/name}}` whose name is not that of the open block.
    MismatchedClose(usize),
    /// The source ended inside a block.
    UnclosedBlock,
}

/// Whether a text holds the opening marker `{{`.
pub open spec fn has_open(s: Seq<char>) -> bool {
    exists|i: int| 0 <= i < s.len() - 1 && s[i] == '{' && #[trigger] s[i + 1] == '{'
}

/// Whether an element is raw text holding exactly `t`.
pub open spec fn is_raw_of(n: Node, t: Seq<char>) -> bool {
    match n {
        Node::Raw(s) => s@ == t,
        _ => false,
    }
}

fn is_space(c: char) -> (r: bool)
    ensures
        r == (c == ' ' || c == '\t' || c == '\n' || c == '\r'),
{
    c == ' ' || c == '\t' || c == '\n' || c == '\r'
}

fn to_chars(s: &str) -> (r: Vec<char>)
    ensures
        r@ == s@,
{
    let n = s.unicode_len();
    let mut r: Vec<char> = Vec::new();
    let mut i: usize = 0;
    while i < n
        invariant
            n == s@.len(),
            i <= n,
            r@ == s@.subrange(0, i as int),
        decreases n - i,
    {
        r.push(s.get_char(i));
        i = i + 1;
        assert(r@ =~= s@.subrange(0, i as int));
    }
    assert(s@.subrange(0, n as int) =~= s@);
    r
}

fn slice_string(c: &Vec<char>, from: usize, to: usize) -> (r: String)
    requires
        from <= to <= c@.len(),
    ensures
        r@ == c@.subrange(from as int, to as int),
{
    let mut r = String::new();
    let mut i: usize = from;
    while i < to
        invariant
            from <= i <= to <= c@.len(),
            r@ == c@.subrange(from as int, i as int),
        decreases to - i,
    {
        push_char(&mut r, c[i]);
        i = i + 1;
        assert(r@ =~= c@.subrange(from as int, i as int));
    }
    r
}

/// The first position at or after `from` where `{{` starts, or the length.
fn find_open(c: &Vec<char>, from: usize) -> (r: usize)
    requires
        from <= c@.len(),
    ensures
        from <= r <= c@.len(),
        r < c@.len() ==> r + 1 < c@.len() && c@[r as int] == '{' && c@[r + 1] == '{',
        forall|j: int| from <= j < r && j + 1 < c@.len() ==> !(c@[j] == '{' && #[trigger] c@[j + 1] == '{'),
{
    let mut i: usize = from;
    while i < c.len()
        invariant
            from <= i <= c@.len(),
            forall|j: int| from <= j < i && j + 1 < c@.len() ==> !(c@[j] == '{' && #[trigger] c@[j + 1] == '{'),
        decreases c@.len() - i,
    {
        if i + 1 < c.len() && c[i] == '{' && c[i + 1] == '{' {
            return i;
        }
        i = i + 1;
    }
    i
}

/// The first position at or after `from` where `}}` starts.
fn find_close(c: &Vec<char>, from: usize) -> (r: Option<usize>)
    requires
        from <= c@.len(),
    ensures
        r matches Some(j) ==> from <= j && j + 1 < c@.len(),
{
    let mut i: usize = from;
    while i < c.len() && c.len() - i > 1
        invariant
            from <= i <= c@.len(),
        decreases c@.len() - i,
    {
        if c[i] == '}' && c[i + 1] == '}' {
            return Some(i);
        }
        i = i + 1;
    }
    None
}

/// The ranges of the words in `c[from..to]`, separated by blanks and `|`.
fn split_words(c: &Vec<char>, from: usize, to: usize) -> (r: Vec<(usize, usize)>)
    requires
        from <= to <= c@.len(),
    ensures
        forall|k: int| 0 <= k < r@.len() ==> from <= (#[trigger] r@[k]).0 < r@[k].1 <= to,
{
    let mut r: Vec<(usize, usize)> = Vec::new();
    let mut i: usize = from;
    while i < to
        invariant
            from <= i <= to <= c@.len(),
            forall|k: int| 0 <= k < r@.len() ==> from <= (#[trigger] r@[k]).0 < r@[k].1 <= i,
        decreases to - i,
    {
        if is_space(c[i]) || c[i] == '|' {
            i = i + 1;
        } else {
            let start = i;
            while i < to && !(is_space(c[i]) || c[i] == '|')
                invariant
                    start <= i <= to <= c@.len(),
                decreases to - i,
            {
                i = i + 1;
            }
            r.push((start, i));
        }
    }
    r
}

fn is_word(c: &Vec<char>, from: usize, to: usize, w: &str) -> (r: bool)
    requires
        from <= to <= c@.len(),
    ensures
        r == (c@.subrange(from as int, to as int) == w@),
{
    let s = slice_string(c, from, to);
    name_is(&s, w)
}

/// Reads a path expression: `@root` anchors it at the top of the data, a
/// leading `@` makes it a local variable, each leading `../` climbs one level,
/// and `this` names the current value.
fn parse_path(c: &Vec<char>, from: usize, to: usize) -> (r: PathExpr)
    requires
        from <= to <= c@.len(),
{
    let mut i: usize = from;
    let mut kind = PathKind::Relative;
    if i < to && c[i] == '@' {
        if to - from >= 5 && is_word(c, from + 1, from + 5, "root") {
            kind = PathKind::Absolute;
            i = from + 5;
        } else {
            kind = PathKind::Local;
            i = from + 1;
        }
    }
    let mut up: usize = 0;
    while to - i > 2 && c[i] == '.' && c[i + 1] == '.' && c[i + 2] == '/'
        invariant
            from <= i <= to <= c@.len(),
            up <= i,
        decreases to - i,
    {
        up = up + 1;
        i = i + 3;
    }
    if to - i == 2 && c[i] == '.' && c[i + 1] == '.' {
        up = up + 1;
        i = to;
    }
    let mut segs: Vec<String> = Vec::new();
    while i < to
        invariant
            from <= i <= to <= c@.len(),
        decreases to - i,
    {
        if c[i] == '/' || c[i] == '.' {
            i = i + 1;
        } else {
            let start = i;
            while i < to && c[i] != '/' && c[i] != '.'
                invariant
                    start <= i <= to <= c@.len(),
                decreases to - i,
            {
                i = i + 1;
            }
            let mut s = start;
            let mut e = i;
            if e - s >= 2 && c[s] == '[' && c[e - 1] == ']' {
                s = s + 1;
                e = e - 1;
            }
            let this_seg = segs.len() == 0 && kind == PathKind::Relative && is_word(c, s, e, "this");
            if !this_seg {
                segs.push(slice_string(c, s, e));
            }
        }
    }
    PathExpr { kind, up, segs }
}

/// Reads a directive parameter: a quoted string, a whole number, `true`,
/// `false` or `null` is a literal value; anything else is a path.
fn parse_param(c: &Vec<char>, from: usize, to: usize) -> (r: Param)
    requires
        from < to <= c@.len(),
{
    let first = c[from];
    if to - from >= 2 && (first == '"' || first == '\'') && c[to - 1] == first {
        return Param::Literal(Json::Str(slice_string(c, from + 1, to - 1)));
    }
    if is_word(c, from, to, "true") {
        return Param::Literal(Json::Bool(true));
    }
    if is_word(c, from, to, "false") {
        return Param::Literal(Json::Bool(false));
    }
    if is_word(c, from, to, "null") {
        return Param::Literal(Json::Null);
    }
    let negative = first == '-' && to - from >= 2;
    let digits = slice_string(c, if negative { from + 1 } else { from }, to);
    match parse_index_exec(&digits) {
        Some(v) => {
            if v as u64 <= i64::MAX as u64 {
                let n = v as i64;
                return Param::Literal(Json::Number(if negative { -n } else { n }));
            }
        },
        None => {},
    }
    Param::Path(parse_path(c, from, to))
}

struct OpenBlock {
    name: String,
    params: Vec<Param>,
    block_params: Vec<String>,
    main: Vec<Node>,
    inverse: Option<Vec<Node>>,
    in_inverse: bool,
}

fn append_node(root: &mut Vec<Node>, stack: &mut Vec<OpenBlock>, n: Node)
    ensures
        final(stack)@.len() == old(stack)@.len(),
        old(stack)@.len() == 0 ==> final(root)@ == old(root)@.push(n),
{
    match stack.pop() {
        Some(mut top) => {
            if top.in_inverse {
                match top.inverse {
                    Some(mut inv) => {
                        inv.push(n);
                        top.inverse = Some(inv);
                    },
                    None => {
                        top.inverse = Some(vec![n]);
                    },
                }
            } else {
                top.main.push(n);
            }
            stack.push(top);
        },
        None => root.push(n),
    }
}

/// Compiles template source into its elements: raw text, `{{path}}`
/// expressions, inline directives such as `{{lookup a b}}`, and `{{#name params as |x|}}...{{else}}...{{/name}}` blocks.
/// A source without `{{` is one raw element, or none when empty.
pub fn compile(src: &str) -> (r: Result<Vec<Node>, TemplateError>)
    ensures
        !has_open(src@) && src@.len() > 0 ==> r is Ok && r->Ok_0@.len() == 1
            && is_raw_of(r->Ok_0@[0], src@),
        src@.len() == 0 ==> r is Ok && r->Ok_0@.len() == 0,
{
    let c = to_chars(src);
    let mut root: Vec<Node> = Vec::new();
    let mut stack: Vec<OpenBlock> = Vec::new();
    let mut i: usize = 0;
    while i < c.len()
        invariant
            c@ == src@,
            i <= c@.len(),
            !has_open(src@) ==> stack@.len() == 0 && (i == 0 ==> root@.len() == 0) && (i > 0 ==> i
                == c@.len() && root@.len() == 1 && is_raw_of(root@[0], src@)),
        decreases c@.len() - i,
    {
        let open = find_open(&c, i);
        if open > i {
            let text = slice_string(&c, i, open);
            proof {
                if !has_open(src@) {
                    assert(open == c@.len());
                    assert(i == 0);
                    assert(c@.subrange(0, c@.len() as int) =~= src@);
                }
            }
            append_node(&mut root, &mut stack, Node::Raw(text));
            i = open;
        } else {
            proof {
                if !has_open(src@) {
                    assert(c@[open as int] == '{' && c@[open + 1] == '{');
                    assert(false);
                }
            }
            let close = match find_close(&c, open + 2) {
                Some(j) => j,
                None => {
                    return Err(TemplateError::UnclosedExpression(open));
                },
            };
            let mut s: usize = open + 2;
            let mut e: usize = close;
            while s < e && is_space(c[s])
                invariant
                    open + 2 <= s <= e <= c@.len(),
                decreases e - s,
            {
                s = s + 1;
            }
            while e > s && is_space(c[e - 1])
                invariant
                    open + 2 <= s <= e <= c@.len(),
                decreases e,
            {
                e = e - 1;
            }
            if s == e {
                return Err(TemplateError::EmptyExpression(open));
            }
            if c[s] == '#' {
                let words = split_words(&c, s + 1, e);
                if words.len() == 0 {
                    return Err(TemplateError::EmptyExpression(open));
                }
                let name = slice_string(&c, words[0].0, words[0].1);
                let mut params: Vec<Param> = Vec::new();
                let mut block_params: Vec<String> = Vec::new();
                let mut k: usize = 1;
                let mut after_as = false;
                while k < words.len()
                    invariant
                        s + 1 <= e <= c@.len(),
                        forall|m: int| 0 <= m < words@.len() ==> s + 1 <= (#[trigger] words@[m]).0 < words@[m].1 <= e,
                    decreases words@.len() - k,
                {
                    let (a, b) = words[k];
                    if after_as {
                        block_params.push(slice_string(&c, a, b));
                    } else if is_word(&c, a, b, "as") {
                        after_as = true;
                    } else {
                        params.push(parse_param(&c, a, b));
                    }
                    k = k + 1;
                }
                stack.push(OpenBlock { name, params, block_params, main: Vec::new(), inverse: None, in_inverse: false });
            } else if c[s] == '/' {
                let top = match stack.pop() {
                    Some(t) => t,
                    None => {
                        return Err(TemplateError::UnexpectedClose(open));
                    },
                };
                let closing = slice_string(&c, s + 1, e);
                if !(closing == top.name) {
                    return Err(TemplateError::MismatchedClose(open));
                }
                let b = Block {
                    name: top.name,
                    params: top.params,
                    block_params: top.block_params,
                    template: Some(top.main),
                    inverse: top.inverse,
                };
                append_node(&mut root, &mut stack, Node::Block(b));
            } else if is_word(&c, s, e, "else") {
                match stack.pop() {
                    Some(mut top) => {
                        top.in_inverse = true;
                        if top.inverse.is_none() {
                            top.inverse = Some(Vec::new());
                        }
                        stack.push(top);
                    },
                    None => {
                        return Err(TemplateError::UnexpectedClose(open));
                    },
                }
            } else {
                let words = split_words(&c, s, e);
                if words.len() > 1 {
                    let name = slice_string(&c, words[0].0, words[0].1);
                    let mut params: Vec<Param> = Vec::new();
                    let mut k: usize = 1;
                    while k < words.len()
                        invariant
                            s <= e <= c@.len(),
                            forall|m: int| 0 <= m < words@.len() ==> s <= (#[trigger] words@[m]).0 < words@[m].1 <= e,
                        decreases words@.len() - k,
                    {
                        params.push(parse_param(&c, words[k].0, words[k].1));
                        k = k + 1;
                    }
                    let b = Block { name, params, block_params: Vec::new(), template: None, inverse: None };
                    append_node(&mut root, &mut stack, Node::Block(b));
                } else {
                    append_node(&mut root, &mut stack, Node::Expr(parse_path(&c, s, e)));
                }
            }
            i = close + 2;
        }
    }
    if stack.len() > 0 {
        return Err(TemplateError::UnclosedBlock);
    }
    Ok(root)
}

} // verus!
