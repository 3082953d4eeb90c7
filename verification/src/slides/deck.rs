//! The texts of the text slides, each drawn from the top left of an empty
//! console.

use vstd::prelude::*;

verus! {

pub const TITLE: &'static str = "









                                 
         Rust on the Nintendo 64 
                                 


                            
             Tristan Miller 
                            
              Apr 18, 2018  
                            
";

pub const OVERVIEW: &'static str = "



                Overview



    * Background

    * What is an N64?

    * Porting process

    * Future Directions

";

pub const BRINGUP_0: &'static str = "



                Bringup
";

pub const BRINGUP_1: &'static str = "



                Bringup



    * Look at existing minimal demos
";

pub const BRINGUP_2: &'static str = "



                Bringup



    * Look at existing minimal demos

    * Write tiniest possible piece 
      that runs
";

pub const BRINGUP_3: &'static str = "



                Bringup



    * Look at existing minimal demos

    * Write tiniest possible piece 
      that runs

    * Write tool to build ROM image
";

pub const BRINGUP_4: &'static str = "



                Bringup



    * Look at existing minimal demos

    * Write tiniest possible piece 
      that runs

    * Write tool to build ROM image

    * Target spec json +
      empty rust function +
      static library
";

pub const BRINGUP_5: &'static str = "



                Bringup



    * Look at existing minimal demos

    * Write tiniest possible piece 
      that runs

    * Write tool to build ROM image

    * Target spec json +
      empty rust function +
      static library
    
    * Linker (gnu ld to llvm lld)
";

pub const BRINGUP_6: &'static str = "



                Bringup



    * Look at existing minimal demos

    * Write tiniest possible piece 
      that runs

    * Write tool to build ROM image

    * Target spec json +
      empty rust function +
      static library
    
    * Linker (gnu ld to llvm lld)

    * Migrate tiniest to Rust
";

pub const BRINGUP_7: &'static str = "



                Bringup



    * Look at existing minimal demos

    * Write tiniest possible piece 
      that runs

    * Write tool to build ROM image

    * Target spec json +
      empty rust function +
      static library
    
    * Linker (gnu ld to llvm lld)

    * Migrate tiniest to Rust

    * Framebuffer console println
";

pub const BRINGUP_8: &'static str = "



                Bringup



    * Look at existing minimal demos

    * Write tiniest possible piece 
      that runs

    * Write tool to build ROM image

    * Target spec json +
      empty rust function +
      static library
    
    * Linker (gnu ld to llvm lld)

    * Migrate tiniest to Rust

    * Framebuffer console println

    * Profit
";

pub const RESULTS_0: &'static str = "



                Results


";

pub const RESULTS_1: &'static str = "



                Results



    * Rust is usable on weird
      embedded systems!
";

pub const RESULTS_2: &'static str = "



                Results



    * Rust is usable on weird
      embedded systems!
    
    * proc_macros are great
";

pub const RESULTS_3: &'static str = "



                Results



    * Rust is usable on weird
      embedded systems!
    
    * proc_macros are great
      (more tokens would be 
      really nice)
";

pub const RESULTS_4: &'static str = "



                Results



    * Rust is usable on weird
      embedded systems!
    
    * proc_macros are great
      (more tokens would be 
      really nice)

    * target spec json is really
      hard
";

pub const RESULTS_5: &'static str = "



                Results



    * Rust is usable on weird
      embedded systems!
    
    * proc_macros are great
      (more tokens would be 
      really nice)

    * target spec json is really
      hard (crosstool solution?)
";

pub const RESULTS_6: &'static str = "



                Results



    * Rust is usable on weird
      embedded systems!
    
    * proc_macros are great
      (more tokens would be 
      really nice)

    * target spec json is really
      hard (crosstool solution?)

    * naked functions with asm
      work great for initial
      code
";

pub const RESULTS_7: &'static str = "



                Results



    * Rust is usable on weird
      embedded systems!
    
    * proc_macros are great
      (more tokens would be 
      really nice)

    * target spec json is really
      hard (crosstool solution?)

    * naked functions with asm
      work great for initial
      code

    * ADTs are amazing for
      prototyping
";

pub const RESULTS_8: &'static str = "



                Results



    * Rust is usable on weird
      embedded systems!
    
    * proc_macros are great
      (more tokens would be 
      really nice)

    * target spec json is really
      hard (crosstool solution?)

    * naked functions with asm
      work great for initial
      code

    * ADTs are amazing for
      prototyping

    * Easy testing!
";

pub const FUTURE_0: &'static str = "



                Future

";

pub const FUTURE_1: &'static str = "



                Future



    * Crates registered
";

pub const FUTURE_2: &'static str = "



                Future



    * Crates registered

    * Better wrappers for 3D
      GFX
";

pub const FUTURE_3: &'static str = "



                Future



    * Crates registered

    * Better wrappers for 3D
      GFX

    * Make a game
";

pub const FUTURE_4: &'static str = "



                Future



    * Crates registered

    * Better wrappers for 3D
      GFX

    * Make a game

    * See what y'all make
";

pub const QUESTIONS: &'static str = "








              Questions?
";

} // verus!
