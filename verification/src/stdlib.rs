//! The easyjs standard library, as easyjs source text (version 0.4.6).
use vstd::prelude::*;
use crate::text::str_eq;

verus! {

pub const HTML: &'static str = r##"// A full HTML DSL using macros
macro html(elements) {
    "<html>
        ${#elements}
    </html>"
}

macro head(elements) {
    "<head>${#elements}</head>"
}

macro title(title) {
    "<title>${#title}</title>"
}

macro body(elements, kwargs) {
    javascript{
        <body style='${#kwargs?.style ?? ""}'>
            #elements
        </body>
    }
}

macro h1(inner, kwargs) {
    "<h1 style='${#kwargs.style}'>${#inner}</h1>"
}

macro elements(els) {
    javascript{
        `${(#els.map(((e) => e)).join('\n'))}`
    }
}

"##;
pub const STD: &'static str = r##"// Get the last element of an array
macro last(array) {
    #array[#array.length - 1]
}

macro print(...msg) {
    console.log(#msg)
}

// Get the first element of an array
macro first(array) {
    #array[0]
}

macro throw(error_msg) {
    javascript {
        throw new Error(#error_msg);
    }
}

// Try to do an operation.
macro try(method, throw) {
    ___try = #method
    javascript {
        try {
            ___try();
        } catch (e) {
            if (#throw == true) {
                throw e;
            }
        }
    }
}

// Try and catch a operation
macro try_catch(method, on_catch) {
    ___try = #method
    ___catch = #on_catch
    javascript {
        try {
            ___try();
        } catch (e) {
            ___catch(e)
        }
    }
}

// Decouple 2 objects. 1 of identifiers, and 1 of matching length/key of values.
macro decouple(idents, values) {
    #idents = #values
}

// declare a constant variable 
macro const(expr) {
    javascript {
        const ${#expr};
    }
}

macro run_function(fun) {
    #fun()
}

macro sleep(ms) {
    const!(func = fn(ms) {
        javascript{
            return new Promise(resolve => setTimeout(resolve, ms));
        }
    })

    await func(#ms)
}

// Flatten a list in JS.
macro flatten(list) {
    javascript {
        [...new Set(#list)];
    }
}

// Merge 2 arrays
macro merge(arr1, arr2, flatten) {
    narr = [].concat(#arr1, #arr2)

    fn {
        if #flatten == true {
            return flat(narr)
        }

        return narr
    }
}

// Reverse a string
macro reverse_string(str) {
    fn {
        return #str.split("").reverse().join("")
    }
}

// Get the EasyJS ASCII
macro easyjs_ascii() {
    "    ___       ___       ___       ___            ___       ___   
   /\\  \\     /\\  \\     /\\  \\     /\\__\\          /\\  \\     /\\  \\  
  /::\\  \\   /::\\  \\   /::\\  \\   |::L__L        _\\:\\  \\   /::\\  \\ 
 /::\\:\\__\\ /::\\:\\__\\ /\\:\\:\\__\\  |:::\\__\\      /\\/::\\__\\ /\\:\\:\\__\\
 \\:\\:\\/  / \\/\\::/  / \\:\\:\\/__/  /:;;/__/      \\::/\\/__/ \\:\\:\\/__/
  \\:\\/  /    /:/  /   \\::/  /   \\/__/          \\/__/     \\::/  / 
   \\/__/     \\/__/     \\/__/                              \\/__/  "
}

// Call Object.keys on a object
macro keys(object) {
    Object.keys(#object)
}

// Call Object.freeze on a object
macro freeze(object) {
    Object.freeze(#object)
}

// console.error macro
macro eprint(err) {
    console.error(#err)
}

// Keep comment alive after compilation by wrapping it in a javascript block
macro jsc(comment) {
    javascript{
        // #comment
    }
}

// JS eq `===`
macro jseq(object, value) {
    javascript{
        (#object === #value)
    }
}

// Is none (null or undefined)
macro is_none(object) {
    jseq!(#object, null) or jseq!(#object, undefined)
}

macro len(obj) {
    #obj.length
}"##;
pub const AGENTS: &'static str = r##"// Property of easyjs

class Agent {
    name:string
    tools:Array<Tool>

    fn __new(self, details) {
        self.name = details.name ?? ''
        self.tools = details.tools ?? []
    }
}"##;
pub const RANDOM: &'static str = r##"// EasyJS implementation of random.uniform from Python.
macro uniform(a,b) {
    Math.random() * (#b - #a + 1) + #a
}

macro choice(array) {
    #array[Math.floor(Math.random() * #array.length)]
}

macro normal(mean, std_dev) {
    u1 = Math.random()
    u2 = Math.random()
    z0 = Math.sqrt(-2.0 * Math.log(u1)) * Math.cos(2.0 * Math.PI * u2) // Box-Muller transform
    z0 * #std_dev + #mean
}

// Shuffle an array randomly.
macro shuffle(arr) {
    #arr.slice().sort(fn() {
        return Math.random() - 0.5
    })
}

// Get a random number from min max
macro random_number(min, max) {Math.floor(Math.random() * (#max - #min + 1) + #min)}

// Get a random hex color
macro random_hex_color() { "#${Math.random().toString(16).slice(2, 8).padEnd(6, '0')}"}

// Get a Random boolean
macro random_bool() { Math.random() >= 0.5}

"##;
pub const NAT___STD: &'static str = r##"native {
    pub fn set_ptr(position:int, value:int) {
        __i32_store(value, position, 0)
    }

    pub fn get_ptr(position:int):int {
        __i32_load(position, 0)
    }
}"##;
pub const NAT___STRINGS: &'static str = r##""##;
pub const NAT___MEM: &'static str = r##"native {
    /// Global heap
    pub HEAP:int = 1024
    /// Global Page size 
    pub PAGE_SIZE:int = 65536
    /// Global nullptr
    pub nullptr:int = 0

    /// Int type
    pub IntType = 1
    /// Float type
    pub FloatType = 2
    /// String type
    pub StringType = 3
    /// Array type
    pub ArrayType = 4
    /// Dict type
    pub DictType = 5
    /// Struct type
    pub StructType = 6

    /// Set a PTR. I32 only
    pub fn set_ptr(position:int, value:int) {
        __i32_store__(position, value)
    }

    /// Get a PTR. I32 only
    pub fn get_ptr(position:int):int {
        return __i32_load__(position)
    }

    /// Allocate something on the heap.
    /// Simply grows the size of the heap by the requested amount.
    pub fn malloc(size:int):int {
        ptr = HEAP
        HEAP += size
        return ptr
    } 

    /// Set variable type
    pub fn set_type(ptr:int, var_type:int) {
        set_ptr(ptr, var_type)
    }

    /// Get variable type
    pub fn get_type(ptr:int):int {
        if ptr == nullptr {
            return nullptr
        }

        return get_ptr(ptr)
    }
}"##;
pub const MATH: &'static str = r##"macro radians(degrees) {
    javascript{
        #degrees * (Math.PI / 180);
    }
}

// Calculate the percentage in EasyJS.
macro calculate_percent(value,total) {
    Math.round((#value / #total) * 100)
}
"##;
pub const DATE: &'static str = r##"// Get the days between 2 dates
macro days_between_dates(d1, d2) { 
    Math.ceil(Math.abs(#d1 - #d2) / (1000 * 60 * 60 * 24)) 
}

// Get the weekday of a date.
macro get_week_day(d) { 
    #d.toLocaleString('en-US', {weekday: 'long'}) 
}

// Is a date a weekend?
macro is_weekend(d) {
    [5,6].indexOf(#d.getDay()) != -1
}"##;
pub const STRINGS: &'static str = r##"// String manipulations

// Capitalize a string
macro make_capital(str) {
    "${#str.charAt(0).toUpperCase()}${#str.slice(1)}"
}"##;
pub const SYS: &'static str = r##"// copywright of easyjs

import 'std' as _

/// Command line args that do not include the file_name or runtime
@const(args = process.argv.slice(2, process.argv.length))
/// File name
@const(file_name = process.argv[1])

/// Execute a shell command.
macro exec(command) {
    (async fn() {
        err = null
        stdout = null
        stderr = null
        // use exec
        if ___runtime == 'deno' {
            split_command = #command.split(' ')
            @const(command = new Deno.command(split_command[0], {
                args: [
                    ...split_command[1..]
                ]
            }))
            @const(result = await command.output())
            err = result.code
            stdout = result.stdout
            stderr = result.stderr
        } else {
            // We use node otherwise
            @const({exec} = require('child_process'))

            exec(#command, fn(e, so, se) {
                err = e
                stdout = so
                stderr = se
            })
        }

        return { err, stdout, stderr }
    })()
}"##;

/// The source of a library of the standard library, or the empty text for any other name.
pub open spec fn spec_load_std(name: Seq<char>) -> Seq<char> {
    if name == "html"@ {
        HTML@
    } else if name == "std"@ {
        STD@
    } else if name == "agents"@ {
        AGENTS@
    } else if name == "random"@ {
        RANDOM@
    } else if name == "nat/std"@ {
        NAT___STD@
    } else if name == "nat/strings"@ {
        NAT___STRINGS@
    } else if name == "nat/mem"@ {
        NAT___MEM@
    } else if name == "math"@ {
        MATH@
    } else if name == "date"@ {
        DATE@
    } else if name == "strings"@ {
        STRINGS@
    } else if name == "sys"@ {
        SYS@
    } else {
        ""@
    }
}

/// Load a STD library from EasyJS version 0.4.6, or an empty string if not found.
pub fn load_std(name: &str) -> (r: String)
    ensures
        r@ == spec_load_std(name@),
{
    let s: &str = if str_eq(name, "html") {
        HTML
    } else if str_eq(name, "std") {
        STD
    } else if str_eq(name, "agents") {
        AGENTS
    } else if str_eq(name, "random") {
        RANDOM
    } else if str_eq(name, "nat/std") {
        NAT___STD
    } else if str_eq(name, "nat/strings") {
        NAT___STRINGS
    } else if str_eq(name, "nat/mem") {
        NAT___MEM
    } else if str_eq(name, "math") {
        MATH
    } else if str_eq(name, "date") {
        DATE
    } else if str_eq(name, "strings") {
        STRINGS
    } else if str_eq(name, "sys") {
        SYS
    } else {
        ""
    };
    s.to_owned()
}


/// Each name of the standard library gives that library's source, and every other name
/// gives the empty text.
pub proof fn lemma_std_libraries(name: Seq<char>)
    ensures
        spec_load_std("html"@) == HTML@,
        spec_load_std("std"@) == STD@,
        spec_load_std("agents"@) == AGENTS@,
        spec_load_std("random"@) == RANDOM@,
        spec_load_std("nat/std"@) == NAT___STD@,
        spec_load_std("nat/strings"@) == NAT___STRINGS@,
        spec_load_std("nat/mem"@) == NAT___MEM@,
        spec_load_std("math"@) == MATH@,
        spec_load_std("date"@) == DATE@,
        spec_load_std("strings"@) == STRINGS@,
        spec_load_std("sys"@) == SYS@,
        name != "html"@ && name != "std"@ && name != "agents"@ && name != "random"@ && name != "nat/std"@ && name != "nat/strings"@ && name != "nat/mem"@ && name != "math"@ && name != "date"@ && name != "strings"@ && name != "sys"@ ==> spec_load_std(name) == ""@,
{
    reveal_strlit("html");
    reveal_strlit("std");
    reveal_strlit("agents");
    reveal_strlit("random");
    reveal_strlit("nat/std");
    reveal_strlit("nat/strings");
    reveal_strlit("nat/mem");
    reveal_strlit("math");
    reveal_strlit("date");
    reveal_strlit("strings");
    reveal_strlit("sys");
    assert("html"@.len() == 4);
    assert("std"@.len() == 3);
    assert("agents"@.len() == 6);
    assert("random"@.len() == 6);
    assert("nat/std"@.len() == 7);
    assert("nat/strings"@.len() == 11);
    assert("nat/mem"@.len() == 7);
    assert("math"@.len() == 4);
    assert("date"@.len() == 4);
    assert("strings"@.len() == 7);
    assert("sys"@.len() == 3);
    assert("random"@[0] != "agents"@[0]);
    assert("nat/mem"@[4] != "nat/std"@[4]);
    assert("math"@[0] != "html"@[0]);
    assert("date"@[0] != "html"@[0]);
    assert("date"@[0] != "math"@[0]);
    assert("strings"@[0] != "nat/std"@[0]);
    assert("strings"@[0] != "nat/mem"@[0]);
    assert("sys"@[1] != "std"@[1]);
}

} // verus!
