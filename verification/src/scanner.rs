use vstd::prelude::*;

use crate::error::ScanError;
use crate::strutil::find_char_from;
use crate::strutil::find_char_in;
use crate::strutil::push_range;

verus! {

// ---------------------------------------------------------------------------
// The annotation found while scanning: `[name]`, `[name:value]`,
// `[text](link)` or `[text](link){class}`, with the character span it covers
// in the original text.
// ---------------------------------------------------------------------------

pub struct Annotation {
    pub name: Vec<char>,
    pub value: Option<Vec<char>>,
    pub link: Option<Vec<char>>,
    pub class: Option<Vec<char>>,
    pub is_image: bool,
    pub start: usize,
    pub end: usize,
}

#[verifier::ext_equal]
pub struct SpecAnnotation {
    pub name: Seq<char>,
    pub value: Option<Seq<char>>,
    pub link: Option<Seq<char>>,
    pub class: Option<Seq<char>>,
    pub is_image: bool,
    pub start: int,
    pub end: int,
}

impl View for Annotation {
    type V = SpecAnnotation;

    open spec fn view(&self) -> SpecAnnotation {
        SpecAnnotation {
            name: self.name@,
            value: match self.value {
                Some(v) => Some(v@),
                None => None,
            },
            link: match self.link {
                Some(v) => Some(v@),
                None => None,
            },
            class: match self.class {
                Some(v) => Some(v@),
                None => None,
            },
            is_image: self.is_image,
            start: self.start as int,
            end: self.end as int,
        }
    }
}

pub open spec fn annotations_view(tags: Seq<Annotation>) -> Seq<SpecAnnotation> {
    tags.map_values(|t: Annotation| t@)
}

// ---------------------------------------------------------------------------
// The scanner's state, one field for one variable of the single left-to-right
// pass: escape handling by the previous character, the code-fence counter,
// the tag / link / class open flags with their buffers, and the annotations
// recorded so far.
// ---------------------------------------------------------------------------

#[verifier::ext_equal]
pub struct ScanState {
    pub prev_char: char,
    pub prev_pos: int,
    pub is_tag_open: bool,
    pub tag_open_pos: int,
    pub tag_close_pos: int,
    pub is_link_open: bool,
    pub is_image: bool,
    pub is_class_open: bool,
    pub is_code_opening: bool,
    pub is_code_possible_closing: bool,
    pub is_multiline_code: bool,
    pub code_open_count: int,
    pub tag_buf: Seq<char>,
    pub link_buf: Seq<char>,
    pub class_buf: Seq<char>,
    pub tags: Seq<SpecAnnotation>,
}

pub open spec fn init_scan_state() -> ScanState {
    ScanState {
        prev_char: '\0',
        prev_pos: 0,
        is_tag_open: false,
        tag_open_pos: 0,
        tag_close_pos: 0,
        is_link_open: false,
        is_image: false,
        is_class_open: false,
        is_code_opening: false,
        is_code_possible_closing: false,
        is_multiline_code: false,
        code_open_count: 0,
        tag_buf: Seq::empty(),
        link_buf: Seq::empty(),
        class_buf: Seq::empty(),
        tags: Seq::empty(),
    }
}

/// A backslash suppresses the special meaning of exactly these characters.
pub open spec fn is_escapable(c: char) -> bool {
    c == '\\' || c == '`' || c == '*' || c == '_' || c == '{' || c == '}' || c == '[' || c == ']'
        || c == '(' || c == ')' || c == '#' || c == '+' || c == '-' || c == '.' || c == '!'
}

/// A simple tag's text split on its first `:` into name and value.
pub open spec fn split_name_value(input: Seq<char>) -> (Seq<char>, Option<Seq<char>>) {
    match find_char_from(input, ':', 0) {
        Some(i) => (input.take(i), Some(input.skip(i + 1))),
        None => (input, None),
    }
}

/// The depth checks run after every code-tick transition: a depth outside
/// 0 through 3 is fatal, and depth 0 ends a multiline fence.
pub open spec fn scan_checks(st: ScanState, pos: int) -> Result<ScanState, ScanError> {
    if st.code_open_count > 3 || st.code_open_count < 0 {
        Err(ScanError::TooManyCodeTicks { pos: pos as usize })
    } else if st.code_open_count == 0 {
        Ok(ScanState { is_multiline_code: false, ..st })
    } else {
        Ok(st)
    }
}

/// Transition on a backtick.
pub open spec fn scan_tick(st: ScanState, prev: char, pos: int) -> Result<ScanState, ScanError> {
    if prev == '`' {
        if st.is_code_opening {
            scan_checks(
                ScanState {
                    code_open_count: st.code_open_count + 1,
                    is_multiline_code: true,
                    ..st
                },
                pos,
            )
        } else {
            if st.is_code_possible_closing {
                scan_checks(
                    ScanState {
                        code_open_count: st.code_open_count - 2,
                        is_code_possible_closing: false,
                        ..st
                    },
                    pos,
                )
            } else {
                scan_checks(ScanState { code_open_count: st.code_open_count - 1, ..st }, pos)
            }
        }
    } else {
        if st.code_open_count < 1 {
            scan_checks(
                ScanState { is_code_opening: true, code_open_count: st.code_open_count + 1, ..st },
                pos,
            )
        } else {
            if st.is_multiline_code {
                Ok(ScanState { is_code_possible_closing: true, ..st })
            } else {
                scan_checks(ScanState { code_open_count: st.code_open_count - 1, ..st }, pos)
            }
        }
    }
}

/// Records a `[name]` or `[name:value]` tag once the character after its `]`
/// shows that no link follows.
pub open spec fn spec_push_simple(st: ScanState) -> ScanState {
    let nv = split_name_value(st.tag_buf);
    ScanState {
        tags: st.tags.push(
            SpecAnnotation {
                name: nv.0,
                value: nv.1,
                link: None,
                class: None,
                is_image: false,
                start: st.tag_open_pos,
                end: st.tag_close_pos + 1,
            },
        ),
        tag_buf: Seq::empty(),
        is_image: false,
        ..st
    }
}

/// Records a `[text](link)` tag once the character after its `)` shows that
/// no class follows; `pos` is that character's position.
pub open spec fn spec_push_link(st: ScanState, pos: int) -> ScanState {
    let nv = split_name_value(st.tag_buf);
    ScanState {
        is_link_open: false,
        tags: st.tags.push(
            SpecAnnotation {
                name: nv.0,
                value: nv.1,
                link: Some(st.link_buf),
                class: None,
                is_image: st.is_image,
                start: st.tag_open_pos,
                end: pos,
            },
        ),
        tag_buf: Seq::empty(),
        link_buf: Seq::empty(),
        is_image: false,
        ..st
    }
}

/// Records a `[text](link){class}` tag at its closing `}`.
pub open spec fn spec_push_class(st: ScanState, pos: int) -> ScanState {
    let nv = split_name_value(st.tag_buf);
    ScanState {
        is_class_open: false,
        tags: st.tags.push(
            SpecAnnotation {
                name: nv.0,
                value: nv.1,
                link: Some(st.link_buf),
                class: Some(st.class_buf),
                is_image: st.is_image,
                start: st.tag_open_pos,
                end: pos + 1,
            },
        ),
        tag_buf: Seq::empty(),
        link_buf: Seq::empty(),
        class_buf: Seq::empty(),
        is_image: false,
        ..st
    }
}

/// Appends the current character to whichever buffers are collecting.
pub open spec fn spec_push_bufs(st: ScanState, c: char) -> ScanState {
    let st1 = if st.is_tag_open {
        ScanState { tag_buf: st.tag_buf.push(c), ..st }
    } else {
        st
    };
    let st2 = if st1.is_link_open && c != ')' {
        ScanState { link_buf: st1.link_buf.push(c), ..st1 }
    } else {
        st1
    };
    if st2.is_class_open {
        ScanState { class_buf: st2.class_buf.push(c), ..st2 }
    } else {
        st2
    }
}

/// One transition of the scanner on the character `c` at position `pos`.
pub open spec fn scan_step(st0: ScanState, c: char, pos: int) -> Result<ScanState, ScanError> {
    let prev = st0.prev_char;
    let st = ScanState { prev_char: c, prev_pos: pos, ..st0 };
    if prev == '\\' && is_escapable(c) {
        Ok(st)
    } else if c == '`' {
        let st1 = if st.code_open_count == 0 && prev == ']' {
            spec_push_simple(st)
        } else if st.code_open_count == 0 && st.is_link_open && prev == ')' {
            spec_push_link(st, pos)
        } else {
            st
        };
        scan_tick(st1, prev, pos)
    } else if st.code_open_count > 0 {
        Ok(ScanState { is_code_opening: false, is_code_possible_closing: false, ..st })
    } else if c == '[' {
        if st.is_tag_open {
            Err(ScanError::TagOpenedTwice { pos: pos as usize })
        } else {
            let st1 = if prev == ']' {
                spec_push_simple(st)
            } else if st.is_link_open && prev == ')' {
                spec_push_link(st, pos)
            } else {
                st
            };
            if prev == '!' {
                Ok(ScanState { is_tag_open: true, tag_open_pos: pos - 1, is_image: true, ..st1 })
            } else {
                Ok(ScanState { is_tag_open: true, tag_open_pos: pos, ..st1 })
            }
        }
    } else if c == ']' {
        Ok(ScanState { is_tag_open: false, tag_close_pos: pos, ..st })
    } else if prev == ']' && c == '(' {
        if st.is_link_open {
            Err(ScanError::LinkOpenedTwice { pos: pos as usize })
        } else {
            Ok(ScanState { is_link_open: true, ..st })
        }
    } else {
        let st1 = if prev == ']' {
            spec_push_simple(st)
        } else {
            st
        };
        if st1.is_link_open && prev == ')' {
            if c == '{' {
                Ok(ScanState { is_link_open: false, is_class_open: true, ..st1 })
            } else {
                Ok(spec_push_link(st1, pos))
            }
        } else {
            let st2 = if st1.is_class_open && c == '}' {
                spec_push_class(st1, pos)
            } else {
                st1
            };
            Ok(spec_push_bufs(st2, c))
        }
    }
}

/// The scanner's state after the first `n` characters of `text`.
pub open spec fn scan_prefix(text: Seq<char>, n: int) -> Result<ScanState, ScanError>
    decreases n,
{
    if n <= 0 {
        Ok(init_scan_state())
    } else {
        match scan_prefix(text, n - 1) {
            Err(e) => Err(e),
            Ok(st) => scan_step(st, text[n - 1], n - 1),
        }
    }
}

/// The end-of-input checks: a trailing `]` is fatal, a link closed by the
/// very last character is still recorded, any tag, link or class state left
/// open is fatal, and an open code fence is fatal.
pub open spec fn scan_finish(st: ScanState) -> Result<Seq<SpecAnnotation>, ScanError> {
    if st.prev_char == ']' {
        Err(ScanError::LateTagClosing)
    } else {
        let closed_link = st.is_link_open && st.prev_char == ')';
        let tags = if closed_link {
            let nv = split_name_value(st.tag_buf);
            st.tags.push(
                SpecAnnotation {
                    name: nv.0,
                    value: nv.1,
                    link: Some(st.link_buf),
                    class: None,
                    is_image: st.is_image,
                    start: st.tag_open_pos,
                    end: st.prev_pos,
                },
            )
        } else {
            st.tags
        };
        if st.is_tag_open || st.is_class_open || (st.is_link_open && !closed_link) {
            Err(ScanError::LateTagClosing)
        } else if st.code_open_count != 0 {
            Err(ScanError::UnbalancedCodeFence)
        } else {
            Ok(tags)
        }
    }
}

/// The annotations of a whole document, or the scan error.
pub open spec fn spec_scan(text: Seq<char>) -> Result<Seq<SpecAnnotation>, ScanError> {
    match scan_prefix(text, text.len() as int) {
        Err(e) => Err(e),
        Ok(st) => scan_finish(st),
    }
}

/// Bounds that every reachable scanner state obeys; they keep the executable
/// scanner's position arithmetic inside `usize`.
#[verifier::rlimit(60)]
pub proof fn lemma_scan_prefix_ok(text: Seq<char>, n: int)
    requires
        0 <= n <= text.len(),
    ensures
        scan_prefix(text, n) matches Ok(st) ==> {
            &&& 0 <= st.code_open_count <= 3
            &&& 0 <= st.prev_pos <= (if n == 0 { 0int } else { n - 1 })
            &&& 0 <= st.tag_open_pos <= (if n == 0 { 0int } else { n - 1 })
            &&& 0 <= st.tag_close_pos <= (if n == 0 { 0int } else { n - 1 })
            &&& (n == 0 ==> st == init_scan_state())
        },
    decreases n,
{
    if n > 0 {
        lemma_scan_prefix_ok(text, n - 1);
    }
}

// ---------------------------------------------------------------------------
// The executable scanner.
// ---------------------------------------------------------------------------

struct ScanMachine {
    prev_char: char,
    prev_pos: usize,
    is_tag_open: bool,
    tag_open_pos: usize,
    tag_close_pos: usize,
    is_link_open: bool,
    is_image: bool,
    is_class_open: bool,
    is_code_opening: bool,
    is_code_possible_closing: bool,
    is_multiline_code: bool,
    code_open_count: i64,
    tag_buf: Vec<char>,
    link_buf: Vec<char>,
    class_buf: Vec<char>,
    tags: Vec<Annotation>,
}

impl View for ScanMachine {
    type V = ScanState;

    closed spec fn view(&self) -> ScanState {
        ScanState {
            prev_char: self.prev_char,
            prev_pos: self.prev_pos as int,
            is_tag_open: self.is_tag_open,
            tag_open_pos: self.tag_open_pos as int,
            tag_close_pos: self.tag_close_pos as int,
            is_link_open: self.is_link_open,
            is_image: self.is_image,
            is_class_open: self.is_class_open,
            is_code_opening: self.is_code_opening,
            is_code_possible_closing: self.is_code_possible_closing,
            is_multiline_code: self.is_multiline_code,
            code_open_count: self.code_open_count as int,
            tag_buf: self.tag_buf@,
            link_buf: self.link_buf@,
            class_buf: self.class_buf@,
            tags: annotations_view(self.tags@),
        }
    }
}

fn escapable(c: char) -> (b: bool)
    ensures
        b == is_escapable(c),
{
    c == '\\' || c == '`' || c == '*' || c == '_' || c == '{' || c == '}' || c == '[' || c == ']'
        || c == '(' || c == ')' || c == '#' || c == '+' || c == '-' || c == '.' || c == '!'
}

/// Splits a tag buffer on its first `:`.
fn split_nv(buf: &Vec<char>) -> (r: (Vec<char>, Option<Vec<char>>))
    ensures
        r.0@ == split_name_value(buf@).0,
        match r.1 {
            Some(v) => split_name_value(buf@).1 == Some(v@),
            None => split_name_value(buf@).1 is None,
        },
{
    match find_char_in(buf, ':', 0) {
        Some(i) => {
            proof {
                crate::strutil::lemma_find_char_from_bounds(buf@, ':', 0);
            }
            let blen = buf.len();
            let mut name: Vec<char> = Vec::new();
            push_range(&mut name, buf, 0, i);
            let mut value: Vec<char> = Vec::new();
            push_range(&mut value, buf, i + 1, blen);
            proof {
                assert(name@ =~= split_name_value(buf@).0);
                assert(value@ =~= split_name_value(buf@).1->Some_0);
            }
            (name, Some(value))
        },
        None => {
            let mut name: Vec<char> = Vec::new();
            push_range(&mut name, buf, 0, buf.len());
            proof {
                assert(name@ =~= buf@);
            }
            (name, None)
        },
    }
}

impl ScanMachine {
    fn new() -> (m: ScanMachine)
        ensures
            m@ == init_scan_state(),
    {
        let m = ScanMachine {
            prev_char: '\0',
            prev_pos: 0,
            is_tag_open: false,
            tag_open_pos: 0,
            tag_close_pos: 0,
            is_link_open: false,
            is_image: false,
            is_class_open: false,
            is_code_opening: false,
            is_code_possible_closing: false,
            is_multiline_code: false,
            code_open_count: 0,
            tag_buf: Vec::new(),
            link_buf: Vec::new(),
            class_buf: Vec::new(),
            tags: Vec::new(),
        };
        proof {
            assert(m@ =~= init_scan_state());
        }
        m
    }

    fn push_simple(&mut self)
        requires
            old(self)@.tag_close_pos < usize::MAX,
        ensures
            final(self)@ == spec_push_simple(old(self)@),
    {
        let nv = split_nv(&self.tag_buf);
        self.tags.push(
            Annotation {
                name: nv.0,
                value: nv.1,
                link: None,
                class: None,
                is_image: false,
                start: self.tag_open_pos,
                end: self.tag_close_pos + 1,
            },
        );
        self.tag_buf = Vec::new();
        self.is_image = false;
        proof {
            assert(self@ =~= spec_push_simple(old(self)@));
        }
    }

    fn push_link(&mut self, pos: usize)
        ensures
            final(self)@ == spec_push_link(old(self)@, pos as int),
    {
        let nv = split_nv(&self.tag_buf);
        let mut link: Vec<char> = Vec::new();
        push_range(&mut link, &self.link_buf, 0, self.link_buf.len());
        proof {
            assert(link@ =~= self.link_buf@);
        }
        self.is_link_open = false;
        self.tags.push(
            Annotation {
                name: nv.0,
                value: nv.1,
                link: Some(link),
                class: None,
                is_image: self.is_image,
                start: self.tag_open_pos,
                end: pos,
            },
        );
        self.tag_buf = Vec::new();
        self.link_buf = Vec::new();
        self.is_image = false;
        proof {
            assert(self@ =~= spec_push_link(old(self)@, pos as int));
        }
    }

    fn push_class(&mut self, pos: usize)
        requires
            pos < usize::MAX,
        ensures
            final(self)@ == spec_push_class(old(self)@, pos as int),
    {
        let nv = split_nv(&self.tag_buf);
        let mut link: Vec<char> = Vec::new();
        push_range(&mut link, &self.link_buf, 0, self.link_buf.len());
        let mut class: Vec<char> = Vec::new();
        push_range(&mut class, &self.class_buf, 0, self.class_buf.len());
        proof {
            assert(link@ =~= self.link_buf@);
            assert(class@ =~= self.class_buf@);
        }
        self.is_class_open = false;
        self.tags.push(
            Annotation {
                name: nv.0,
                value: nv.1,
                link: Some(link),
                class: Some(class),
                is_image: self.is_image,
                start: self.tag_open_pos,
                end: pos + 1,
            },
        );
        self.tag_buf = Vec::new();
        self.link_buf = Vec::new();
        self.class_buf = Vec::new();
        self.is_image = false;
        proof {
            assert(self@ =~= spec_push_class(old(self)@, pos as int));
        }
    }

    fn push_bufs(&mut self, c: char)
        ensures
            final(self)@ == spec_push_bufs(old(self)@, c),
    {
        if self.is_tag_open {
            self.tag_buf.push(c);
        }
        if self.is_link_open && c != ')' {
            self.link_buf.push(c);
        }
        if self.is_class_open {
            self.class_buf.push(c);
        }
        proof {
            assert(self@ =~= spec_push_bufs(old(self)@, c));
        }
    }

    /// Runs the depth checks after a code-tick transition.
    fn checks(&mut self, pos: usize) -> (r: Result<(), ScanError>)
        ensures
            match r {
                Ok(()) => scan_checks(old(self)@, pos as int) == Ok::<ScanState, ScanError>(final(self)@),
                Err(e) => scan_checks(old(self)@, pos as int) == Err::<ScanState, ScanError>(e),
            },
    {
        if self.code_open_count > 3 || self.code_open_count < 0 {
            return Err(ScanError::TooManyCodeTicks { pos });
        }
        if self.code_open_count == 0 {
            self.is_multiline_code = false;
        }
        proof {
            assert(Ok::<ScanState, ScanError>(self@) =~= scan_checks(old(self)@, pos as int));
        }
        Ok(())
    }

    fn tick(&mut self, prev: char, pos: usize) -> (r: Result<(), ScanError>)
        requires
            0 <= old(self)@.code_open_count <= 3,
        ensures
            match r {
                Ok(()) => scan_tick(old(self)@, prev, pos as int) == Ok::<ScanState, ScanError>(final(self)@),
                Err(e) => scan_tick(old(self)@, prev, pos as int) == Err::<ScanState, ScanError>(e),
            },
    {
        if prev == '`' {
            if self.is_code_opening {
                self.code_open_count = self.code_open_count + 1;
                self.is_multiline_code = true;
                self.checks(pos)
            } else {
                if self.is_code_possible_closing {
                    self.code_open_count = self.code_open_count - 2;
                    self.is_code_possible_closing = false;
                } else {
                    self.code_open_count = self.code_open_count - 1;
                }
                self.checks(pos)
            }
        } else {
            if self.code_open_count < 1 {
                self.is_code_opening = true;
                self.code_open_count = self.code_open_count + 1;
                self.checks(pos)
            } else {
                if self.is_multiline_code {
                    self.is_code_possible_closing = true;
                    proof {
                        assert(Ok::<ScanState, ScanError>(self@) =~= scan_tick(
                            old(self)@,
                            prev,
                            pos as int,
                        ));
                    }
                    Ok(())
                } else {
                    self.code_open_count = self.code_open_count - 1;
                    self.checks(pos)
                }
            }
        }
    }

    fn step(&mut self, c: char, pos: usize) -> (r: Result<(), ScanError>)
        requires
            0 <= old(self)@.code_open_count <= 3,
            old(self)@.tag_close_pos < usize::MAX,
            pos < usize::MAX,
            c == '[' && old(self)@.prev_char == '!' ==> pos >= 1,
        ensures
            match r {
                Ok(()) => scan_step(old(self)@, c, pos as int) == Ok::<ScanState, ScanError>(final(self)@),
                Err(e) => scan_step(old(self)@, c, pos as int) == Err::<ScanState, ScanError>(e),
            },
    {
        let prev = self.prev_char;
        self.prev_char = c;
        self.prev_pos = pos;
        if prev == '\\' && escapable(c) {
            proof {
                assert(Ok::<ScanState, ScanError>(self@) =~= scan_step(old(self)@, c, pos as int));
            }
            return Ok(());
        }
        if c == '`' {
            if self.code_open_count == 0 {
                if prev == ']' {
                    self.push_simple();
                } else if self.is_link_open && prev == ')' {
                    self.push_link(pos);
                }
            }
            return self.tick(prev, pos);
        }
        if self.code_open_count > 0 {
            self.is_code_opening = false;
            self.is_code_possible_closing = false;
            proof {
                assert(Ok::<ScanState, ScanError>(self@) =~= scan_step(old(self)@, c, pos as int));
            }
            return Ok(());
        }
        if c == '[' {
            if self.is_tag_open {
                return Err(ScanError::TagOpenedTwice { pos });
            }
            if prev == ']' {
                self.push_simple();
            } else if self.is_link_open && prev == ')' {
                self.push_link(pos);
            }
            self.is_tag_open = true;
            if prev == '!' {
                self.is_image = true;
                self.tag_open_pos = pos - 1;
            } else {
                self.tag_open_pos = pos;
            }
            proof {
                assert(Ok::<ScanState, ScanError>(self@) =~= scan_step(old(self)@, c, pos as int));
            }
            return Ok(());
        }
        if c == ']' {
            self.is_tag_open = false;
            self.tag_close_pos = pos;
            proof {
                assert(Ok::<ScanState, ScanError>(self@) =~= scan_step(old(self)@, c, pos as int));
            }
            return Ok(());
        }
        if prev == ']' && c == '(' {
            if self.is_link_open {
                return Err(ScanError::LinkOpenedTwice { pos });
            }
            self.is_link_open = true;
            proof {
                assert(Ok::<ScanState, ScanError>(self@) =~= scan_step(old(self)@, c, pos as int));
            }
            return Ok(());
        }
        if prev == ']' {
            self.push_simple();
        }
        if self.is_link_open && prev == ')' {
            if c == '{' {
                self.is_link_open = false;
                self.is_class_open = true;
            } else {
                self.push_link(pos);
            }
            proof {
                assert(Ok::<ScanState, ScanError>(self@) =~= scan_step(old(self)@, c, pos as int));
            }
            return Ok(());
        }
        if self.is_class_open && c == '}' {
            self.push_class(pos);
        }
        self.push_bufs(c);
        proof {
            assert(Ok::<ScanState, ScanError>(self@) =~= scan_step(old(self)@, c, pos as int));
        }
        Ok(())
    }
}

/// Scans a whole document for annotations.
pub fn scan_annotations(text: &Vec<char>) -> (r: Result<Vec<Annotation>, ScanError>)
    ensures
        match r {
            Ok(tags) => spec_scan(text@) == Ok::<Seq<SpecAnnotation>, ScanError>(annotations_view(tags@)),
            Err(e) => spec_scan(text@) == Err::<Seq<SpecAnnotation>, ScanError>(e),
        },
{
    let n = text.len();
    let mut m = ScanMachine::new();
    let mut i: usize = 0;
    while i < n
        invariant
            0 <= i <= n,
            n == text@.len(),
            scan_prefix(text@, i as int) == Ok::<ScanState, ScanError>(m@),
        decreases n - i,
    {
        proof {
            lemma_scan_prefix_ok(text@, i as int);
        }
        let c = text[i];
        match m.step(c, i) {
            Ok(()) => {},
            Err(e) => {
                proof {
                    assert(scan_prefix(text@, i + 1) == Err::<ScanState, ScanError>(e));
                    lemma_scan_prefix_err(text@, i + 1, text@.len() as int);
                }
                return Err(e);
            },
        }
        i += 1;
    }
    // end-of-input handling
    let ghost stf = m@;
    if m.prev_char == ']' {
        return Err(ScanError::LateTagClosing);
    }
    let closed_link = m.is_link_open && m.prev_char == ')';
    if closed_link {
        let nv = split_nv(&m.tag_buf);
        let mut link: Vec<char> = Vec::new();
        let llen = m.link_buf.len();
        push_range(&mut link, &m.link_buf, 0, llen);
        proof {
            assert(link@ =~= m.link_buf@);
        }
        let a = Annotation {
            name: nv.0,
            value: nv.1,
            link: Some(link),
            class: None,
            is_image: m.is_image,
            start: m.tag_open_pos,
            end: m.prev_pos,
        };
        m.tags.push(a);
    }
    if m.is_tag_open || m.is_class_open || (m.is_link_open && !closed_link) {
        return Err(ScanError::LateTagClosing);
    }
    if m.code_open_count != 0 {
        return Err(ScanError::UnbalancedCodeFence);
    }
    proof {
        let fin = scan_finish(stf);
        assert(annotations_view(m.tags@) =~= fin->Ok_0);
        assert(spec_scan(text@) == Ok::<Seq<SpecAnnotation>, ScanError>(annotations_view(m.tags@)));
    }
    Ok(m.tags)
}

/// An error while scanning the first `n` characters is the error of every
/// longer prefix and of the whole scan.
pub proof fn lemma_scan_prefix_err(text: Seq<char>, n: int, m: int)
    requires
        0 <= n <= m,
        scan_prefix(text, n) is Err,
    ensures
        scan_prefix(text, m) == scan_prefix(text, n),
    decreases m - n,
{
    if n < m {
        lemma_scan_prefix_err(text, n, m - 1);
    }
}

} // verus!
