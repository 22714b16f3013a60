use vstd::prelude::*;

use crate::text::push_char;

verus! {

/// The JNI escape of one character of a method or type name: `_` becomes `_1`.
pub open spec fn escape_char(c: char) -> Seq<char> {
    if c == '_' {
        seq!['_', '1']
    } else {
        seq![c]
    }
}

/// The JNI escape of one character of a class name: `_` becomes `_1`, `.` becomes `_`.
pub open spec fn escape_class_char(c: char) -> Seq<char> {
    if c == '_' {
        seq!['_', '1']
    } else if c == '.' {
        seq!['_']
    } else {
        seq![c]
    }
}

pub open spec fn escaped(s: Seq<char>) -> Seq<char>
    decreases s.len(),
{
    if s.len() == 0 {
        seq![]
    } else {
        escaped(s.drop_last()) + escape_char(s.last())
    }
}

pub open spec fn escaped_class(s: Seq<char>) -> Seq<char>
    decreases s.len(),
{
    if s.len() == 0 {
        seq![]
    } else {
        escaped_class(s.drop_last()) + escape_class_char(s.last())
    }
}

/// The exported symbol that the JVM looks up for a native method.
pub open spec fn jni_fn_name(namespace: Seq<char>, name: Seq<char>, suffix: Seq<char>) -> Seq<
    char,
> {
    seq!['J', 'a', 'v', 'a', '_'] + escaped_class(namespace) + seq!['_'] + escaped(name) + escaped(
        suffix,
    )
}

fn push_escaped(out: &mut String, s: &str, class: bool)
    ensures
        class ==> final(out)@ == old(out)@ + escaped_class(s@),
        !class ==> final(out)@ == old(out)@ + escaped(s@),
{
    let cs = crate::text::chars_of(s);
    let ghost start = out@;
    let mut k: usize = 0;
    while k < cs.len()
        invariant
            k <= cs.len(),
            cs@ == s@,
            class ==> out@ == start + escaped_class(cs@.take(k as int)),
            !class ==> out@ == start + escaped(cs@.take(k as int)),
        decreases cs.len() - k,
    {
        let c = cs[k];
        if c == '_' {
            push_char(out, '_');
            push_char(out, '1');
        } else if c == '.' && class {
            push_char(out, '_');
        } else {
            push_char(out, c);
        }
        assert(cs@.take(k as int + 1).drop_last() =~= cs@.take(k as int));
        k = k + 1;
        assert(class ==> out@ =~= start + escaped_class(cs@.take(k as int)));
        assert(!class ==> out@ =~= start + escaped(cs@.take(k as int)));
    }
    assert(cs@.take(k as int) =~= s@);
}

/// Builds a JNI function name from the full class name, the function name and an optional
/// suffix: `Java_` + class + `_` + name + suffix, escaped as JNI requires.
pub fn create_jni_fn_name(namespace: &str, name: &str, suffix: &str) -> (r: String)
    ensures
        r@ == jni_fn_name(namespace@, name@, suffix@),
{
    let mut out = String::new();
    push_char(&mut out, 'J');
    push_char(&mut out, 'a');
    push_char(&mut out, 'v');
    push_char(&mut out, 'a');
    push_char(&mut out, '_');
    push_escaped(&mut out, namespace, true);
    push_char(&mut out, '_');
    push_escaped(&mut out, name, false);
    push_escaped(&mut out, suffix, false);
    assert(out@ =~= jni_fn_name(namespace@, name@, suffix@));
    out
}

/// The arguments of a JNI naming attribute: the Java class that owns the native methods,
/// and a suffix taken from a type name (empty when none is given).
#[derive(Debug)]
pub struct JNIName {
    pub namespace: String,
    pub suffix: String,
}

impl JNIName {
    /// The exported name of the native method `name` of this class.
    pub fn fn_name(&self, name: &str) -> (r: String)
        ensures
            r@ == jni_fn_name(self.namespace@, name@, self.suffix@),
    {
        create_jni_fn_name(self.namespace.as_str(), name, self.suffix.as_str())
    }
}

} // verus!
